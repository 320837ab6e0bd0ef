//! How windows stay apart when panes come and go.
use super::state::{
    apart, holder_is_found, holder_of, holders_are_unique, slot_of, slots_after_update,
    update_keeps_apart,
};
use super::types::{PaneId, WindowId};
use super::window::{place_is_found, place_of, PaneView, WindowView};
use vstd::prelude::*;

verus! {

/// Who holds a pane after a record changed.
proof fn holders_after_update(
    ws: Seq<WindowView>,
    np: u32,
    nw: u32,
    i: int,
    w: WindowView,
    p: PaneId,
)
    requires
        apart(ws, np, nw),
        0 <= i < ws.len(),
    ensures
        holder_of(ws.update(i, w), p) is Some <==> w.holds(p) || (holder_of(ws, p) is Some
            && !ws[i].holds(p)),
{
    let t = ws.update(i, w);
    holder_is_found(t, p);
    holder_is_found(ws, p);
    if w.holds(p) {
        assert(t[i].holds(p));
    }
    match holder_of(t, p) {
        Some(k) => {
            if k != i {
                assert(ws[k].holds(p));
                holders_are_unique(ws, np, nw, k, p);
                if ws[i].holds(p) {
                    holders_are_unique(ws, np, nw, i, p);
                }
            }
        },
        None => {
            match holder_of(ws, p) {
                Some(k) => {
                    if k != i {
                        assert(t[k].holds(p));
                    }
                },
                None => {},
            }
        },
    }
}

/// A window that holds more than one pane can lose one.
pub proof fn losing_a_pane(
    ws: Seq<WindowView>,
    np: u32,
    nw: u32,
    i: int,
    pane: PaneId,
    focus: PaneId,
)
    requires
        apart(ws, np, nw),
        0 <= i < ws.len(),
        ws[i].holds(pane),
        ws[i].holds(focus),
        focus != pane,
    ensures
        apart(ws.update(i, ws[i].without(pane, focus)), np, nw),
        forall|id: WindowId| #[trigger]
            slot_of(ws.update(i, ws[i].without(pane, focus)), id) == slot_of(ws, id),
        forall|q: PaneId|
            (#[trigger] holder_of(ws.update(i, ws[i].without(pane, focus)), q)) is Some <==> (
            holder_of(ws, q) is Some && q != pane),
{
    let v = ws[i];
    let w = v.without(pane, focus);
    place_is_found(v.panes, pane);
    let k = place_of(v.panes, pane)->0;
    assert forall|b: int| 0 <= b < w.panes.len() implies #[trigger] w.panes[b] == v.panes[if b < k {
        b
    } else {
        b + 1
    }] by {}
    assert forall|q: PaneId| w.holds(q) <==> v.holds(q) && q != pane by {
        place_is_found(v.panes, q);
        place_is_found(w.panes, q);
        if v.holds(q) && q != pane {
            let a = place_of(v.panes, q)->0;
            assert(w.panes[if a < k {
                a
            } else {
                a - 1
            }].id == q);
        }
        if w.holds(q) {
            let b = place_of(w.panes, q)->0;
            let a = if b < k {
                b
            } else {
                b + 1
            };
            assert(v.panes[a].id == q);
        }
    }
    assert forall|a: int, b: int| 0 <= a < b < w.panes.len() implies (#[trigger] w.panes[a]).id
        != (#[trigger] w.panes[b]).id by {
        let a2 = if a < k {
            a
        } else {
            a + 1
        };
        let b2 = if b < k {
            b
        } else {
            b + 1
        };
        assert(v.panes[a2].id != v.panes[b2].id);
    }
    assert forall|b: int| 0 <= b < w.panes.len() implies (#[trigger] w.panes[b]).id.0 < np
        && v.holds(w.panes[b].id) by {
        let a = if b < k {
            b
        } else {
            b + 1
        };
        assert(ws[i].panes[a].id.0 < np);
        place_is_found(v.panes, w.panes[b].id);
    }
    update_keeps_apart(ws, np, nw, i, w);
    assert forall|id: WindowId| #[trigger] slot_of(ws.update(i, w), id) == slot_of(ws, id) by {
        slots_after_update(ws, i, w, id);
    }
    assert forall|q: PaneId|
        (#[trigger] holder_of(ws.update(i, w), q)) is Some <==> (holder_of(ws, q) is Some && q
            != pane) by {
        holders_after_update(ws, np, nw, i, w, q);
        holder_is_found(ws, q);
        if v.holds(q) {
            holders_are_unique(ws, np, nw, i, q);
        }
    }
}

/// A window can take in a pane that no window holds.
pub proof fn gaining_a_pane(ws: Seq<WindowView>, np: u32, nw: u32, i: int, p: PaneView)
    requires
        apart(ws, np, nw),
        0 <= i < ws.len(),
        p.id.0 < np,
        holder_of(ws, p.id) is None,
    ensures
        apart(ws.update(i, ws[i].with_pane(p)), np, nw),
        forall|id: WindowId| #[trigger]
            slot_of(ws.update(i, ws[i].with_pane(p)), id) == slot_of(ws, id),
        forall|q: PaneId|
            (#[trigger] holder_of(ws.update(i, ws[i].with_pane(p)), q)) is Some <==> (holder_of(
                ws,
                q,
            ) is Some || q == p.id),
{
    let v = ws[i];
    let w = v.with_pane(p);
    holder_is_found(ws, p.id);
    place_is_found(v.panes, p.id);
    assert(w.panes.drop_last() =~= v.panes);
    assert forall|q: PaneId| w.holds(q) <==> v.holds(q) || q == p.id by {}
    assert forall|b: int| 0 <= b < w.panes.len() implies (#[trigger] w.panes[b]).id.0 < np && (
    v.holds(w.panes[b].id) || holder_of(ws, w.panes[b].id) is None) by {
        if b < v.panes.len() {
            assert(ws[i].panes[b].id.0 < np);
            place_is_found(v.panes, v.panes[b].id);
        }
    }
    update_keeps_apart(ws, np, nw, i, w);
    assert forall|id: WindowId| #[trigger] slot_of(ws.update(i, w), id) == slot_of(ws, id) by {
        slots_after_update(ws, i, w, id);
    }
    assert forall|q: PaneId|
        (#[trigger] holder_of(ws.update(i, w), q)) is Some <==> (holder_of(ws, q) is Some || q
            == p.id) by {
        holders_after_update(ws, np, nw, i, w, q);
        holder_is_found(ws, q);
        if v.holds(q) {
            holders_are_unique(ws, np, nw, i, q);
        }
    }
}

/// A pane that no window holds can take the place of one.
pub proof fn replacing_a_pane(
    ws: Seq<WindowView>,
    np: u32,
    nw: u32,
    i: int,
    pane: PaneId,
    by: PaneView,
)
    requires
        apart(ws, np, nw),
        0 <= i < ws.len(),
        ws[i].holds(pane),
        by.id.0 < np,
        holder_of(ws, by.id) is None,
    ensures
        apart(ws.update(i, ws[i].replaced(pane, by)), np, nw),
        forall|id: WindowId| #[trigger]
            slot_of(ws.update(i, ws[i].replaced(pane, by)), id) == slot_of(ws, id),
        forall|q: PaneId|
            (#[trigger] holder_of(ws.update(i, ws[i].replaced(pane, by)), q)) is Some <==> ((
            holder_of(ws, q) is Some && q != pane) || q == by.id),
{
    let v = ws[i];
    let w = v.replaced(pane, by);
    place_is_found(v.panes, pane);
    let k = place_of(v.panes, pane)->0;
    holder_is_found(ws, by.id);
    place_is_found(v.panes, by.id);
    assert forall|q: PaneId| w.holds(q) <==> (v.holds(q) && q != pane) || q == by.id by {
        place_is_found(v.panes, q);
        place_is_found(w.panes, q);
        if v.holds(q) && q != pane {
            assert(w.panes[place_of(v.panes, q)->0].id == q);
        }
        if q == by.id {
            assert(w.panes[k].id == q);
        }
        if w.holds(q) {
            let b = place_of(w.panes, q)->0;
            if b != k {
                assert(v.panes[b].id == q);
            }
        }
    }
    assert forall|b: int| 0 <= b < w.panes.len() implies (#[trigger] w.panes[b]).id.0 < np && (
    v.holds(w.panes[b].id) || holder_of(ws, w.panes[b].id) is None) by {
        if b != k {
            assert(ws[i].panes[b].id.0 < np);
            place_is_found(v.panes, v.panes[b].id);
        }
    }
    assert forall|a: int, b: int| 0 <= a < b < w.panes.len() implies (#[trigger] w.panes[a]).id
        != (#[trigger] w.panes[b]).id by {
        assert(v.panes[a].id != v.panes[b].id);
    }
    update_keeps_apart(ws, np, nw, i, w);
    assert forall|id: WindowId| #[trigger] slot_of(ws.update(i, w), id) == slot_of(ws, id) by {
        slots_after_update(ws, i, w, id);
    }
    assert forall|q: PaneId|
        (#[trigger] holder_of(ws.update(i, w), q)) is Some <==> ((holder_of(ws, q) is Some && q
            != pane) || q == by.id) by {
        holders_after_update(ws, np, nw, i, w, q);
        holder_is_found(ws, q);
        if v.holds(q) {
            holders_are_unique(ws, np, nw, i, q);
        }
    }
}

/// The windows with two panes of two windows exchanged.
pub open spec fn exchanged(
    ws: Seq<WindowView>,
    i: int,
    a: PaneId,
    j: int,
    m: PaneId,
) -> Seq<WindowView> {
    let pa = ws[i].panes[place_of(ws[i].panes, a)->0];
    let pm = ws[j].panes[place_of(ws[j].panes, m)->0];
    ws.update(i, ws[i].replaced(a, pm)).update(j, ws[j].replaced(m, pa))
}

/// Two panes of two windows can be exchanged.
pub proof fn exchanging_panes(
    ws: Seq<WindowView>,
    np: u32,
    nw: u32,
    i: int,
    a: PaneId,
    j: int,
    m: PaneId,
)
    requires
        apart(ws, np, nw),
        0 <= i < ws.len(),
        0 <= j < ws.len(),
        i != j,
        ws[i].holds(a),
        ws[j].holds(m),
    ensures
        apart(exchanged(ws, i, a, j, m), np, nw),
        forall|id: WindowId| #[trigger]
            slot_of(exchanged(ws, i, a, j, m), id) == slot_of(ws, id),
        forall|q: PaneId|
            (#[trigger] holder_of(exchanged(ws, i, a, j, m), q)) is Some <==> holder_of(ws, q)
                is Some,
{
    let ka = place_of(ws[i].panes, a)->0;
    let km = place_of(ws[j].panes, m)->0;
    place_is_found(ws[i].panes, a);
    place_is_found(ws[j].panes, m);
    let t = exchanged(ws, i, a, j, m);
    let from_x = |x: int, y: int|
        if x == i && y == ka {
            j
        } else if x == j && y == km {
            i
        } else {
            x
        };
    let from_y = |x: int, y: int|
        if x == i && y == ka {
            km
        } else if x == j && y == km {
            ka
        } else {
            y
        };
    assert forall|x: int, y: int| 0 <= x < t.len() && 0 <= y < t[x].panes.len() implies (
    #[trigger] t[x].panes[y]) == ws[from_x(x, y)].panes[from_y(x, y)] && 0 <= from_x(x, y)
        < ws.len() && 0 <= from_y(x, y) < ws[from_x(x, y)].panes.len() by {}
    assert forall|x: int, y: int, z: int|
        0 <= x < t.len() && 0 <= y < z < t[x].panes.len() implies (#[trigger] t[x].panes[y]).id != (
    #[trigger] t[x].panes[z]).id by {
        assert(ws[from_x(x, y)].panes[from_y(x, y)].id != ws[from_x(x, z)].panes[from_y(
            x,
            z,
        )].id);
    }
    assert forall|x: int, z: int, y: int, b: int|
        0 <= x < t.len() && 0 <= z < t.len() && x != z && 0 <= y < t[x].panes.len() && 0 <= b
            < t[z].panes.len() implies (#[trigger] t[x].panes[y]).id != (
    #[trigger] t[z].panes[b]).id by {
        let (x1, y1) = (from_x(x, y), from_y(x, y));
        let (x2, y2) = (from_x(z, b), from_y(z, b));
        if x1 == x2 {
            if y1 < y2 {
                assert(ws[x1].panes[y1].id != ws[x1].panes[y2].id);
            } else {
                assert(ws[x1].panes[y2].id != ws[x1].panes[y1].id);
            }
        } else {
            assert(ws[x1].panes[y1].id != ws[x2].panes[y2].id);
        }
    }
    assert forall|x: int| 0 <= x < t.len() implies (#[trigger] t[x]).wf() && t[x].id.0 < nw by {
        assert(ws[x].wf());
        let image = |q: PaneId|
            if x == i && q == a {
                m
            } else if x == j && q == m {
                a
            } else {
                q
            };
        assert forall|q: PaneId| ws[x].holds(q) implies t[x].holds(#[trigger] image(q)) by {
            place_is_found(ws[x].panes, q);
            place_is_found(t[x].panes, image(q));
            assert(t[x].panes[place_of(ws[x].panes, q)->0].id == image(q));
        }
        assert(t[x].active == image(ws[x].active));
        assert(ws[x].last matches Some(q) ==> t[x].last == Some(image(q)));
        assert(ws[x].zoomed matches Some(q) ==> t[x].zoomed == Some(image(q)));
    }
    assert forall|x: int, y: int| 0 <= x < t.len() && 0 <= y < t[x].panes.len() implies (
    #[trigger] t[x].panes[y]).id.0 < np by {
        assert(ws[from_x(x, y)].panes[from_y(x, y)].id.0 < np);
    }
    assert forall|id: WindowId| #[trigger] slot_of(t, id) == slot_of(ws, id) by {
        let pa = ws[i].panes[ka];
        let pm = ws[j].panes[km];
        slots_after_update(ws, i, ws[i].replaced(a, pm), id);
        slots_after_update(
            ws.update(i, ws[i].replaced(a, pm)),
            j,
            ws[j].replaced(m, pa),
            id,
        );
    }
    assert forall|q: PaneId| (#[trigger] holder_of(t, q)) is Some <==> holder_of(ws, q) is Some by {
        holder_is_found(t, q);
        holder_is_found(ws, q);
        if holder_of(ws, q) is Some {
            let x = holder_of(ws, q)->0;
            place_is_found(ws[x].panes, q);
            let y = place_of(ws[x].panes, q)->0;
            let (x2, y2) = (from_x(x, y), from_y(x, y));
            assert(t[x2].panes[y2].id == q);
            place_is_found(t[x2].panes, q);
            assert(t[x2].holds(q));
        }
        if holder_of(t, q) is Some {
            let x = holder_of(t, q)->0;
            place_is_found(t[x].panes, q);
            let y = place_of(t[x].panes, q)->0;
            let (x2, y2) = (from_x(x, y), from_y(x, y));
            assert(ws[x2].panes[y2].id == q);
            place_is_found(ws[x2].panes, q);
            assert(ws[x2].holds(q));
        }
    }
}

} // verus!
