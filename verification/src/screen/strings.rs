//! What operating system commands and device control strings do.
use super::model::{b, ScreenView};
use super::osc::lossy_text;
use super::ColorQuery;
use crate::iterm::base64_decoded;
use crate::mark::RowMark;
use crate::reply::{decimal, decimals_read_back};
use vstd::prelude::*;
use vstd::utf8::is_ascii_chars_encode_utf8;

verus! {

/// The bytes of the numbers and signs that commands begin with.
proof fn numbers_in_bytes()
    ensures
        b("0"@).len() == 1 && b("1"@).len() == 1 && b("2"@).len() == 1 && b("7"@).len() == 1,
        b("8"@).len() == 1 && b("10"@).len() == 2 && b("11"@).len() == 2 && b("12"@).len() == 2,
        b("52"@).len() == 2 && b("133"@).len() == 3 && b("?"@).len() == 1,
        b("0"@) == seq![0x30u8],
        b("1"@) == seq![0x31u8],
        b("2"@) == seq![0x32u8],
        b("7"@) == seq![0x37u8],
        b("8"@) == seq![0x38u8],
        b("10"@) == seq![0x31u8, 0x30u8],
        b("11"@) == seq![0x31u8, 0x31u8],
        b("12"@) == seq![0x31u8, 0x32u8],
        b("52"@) == seq![0x35u8, 0x32u8],
        b("133"@) == seq![0x31u8, 0x33u8, 0x33u8],
        b("?"@) == seq![0x3fu8],
{
    reveal_strlit("0");
    reveal_strlit("1");
    reveal_strlit("2");
    reveal_strlit("7");
    reveal_strlit("8");
    reveal_strlit("10");
    reveal_strlit("11");
    reveal_strlit("12");
    reveal_strlit("52");
    reveal_strlit("133");
    reveal_strlit("?");
    is_ascii_chars_encode_utf8("0"@);
    is_ascii_chars_encode_utf8("1"@);
    is_ascii_chars_encode_utf8("2"@);
    is_ascii_chars_encode_utf8("7"@);
    is_ascii_chars_encode_utf8("8"@);
    is_ascii_chars_encode_utf8("10"@);
    is_ascii_chars_encode_utf8("11"@);
    is_ascii_chars_encode_utf8("12"@);
    is_ascii_chars_encode_utf8("52"@);
    is_ascii_chars_encode_utf8("133"@);
    is_ascii_chars_encode_utf8("?"@);
    assert(b("0"@) =~= seq![0x30u8]);
    assert(b("1"@) =~= seq![0x31u8]);
    assert(b("2"@) =~= seq![0x32u8]);
    assert(b("7"@) =~= seq![0x37u8]);
    assert(b("8"@) =~= seq![0x38u8]);
    assert(b("10"@) =~= seq![0x31u8, 0x30u8]);
    assert(b("11"@) =~= seq![0x31u8, 0x31u8]);
    assert(b("12"@) =~= seq![0x31u8, 0x32u8]);
    assert(b("52"@) =~= seq![0x35u8, 0x32u8]);
    assert(b("133"@) =~= seq![0x31u8, 0x33u8, 0x33u8]);
    assert(b("?"@) =~= seq![0x3fu8]);
}

/// What a command does tells its number: these are different.
proof fn numbers_differ(n: Seq<u8>)
    ensures
        n.len() == 1 ==> n != seq![0x31u8, 0x30u8] && n != seq![0x31u8, 0x31u8] && n != seq![
            0x31u8,
            0x32u8,
        ] && n != seq![0x35u8, 0x32u8] && n != seq![0x31u8, 0x33u8, 0x33u8],
        seq![0x30u8] != seq![0x31u8],
        seq![0x30u8] != seq![0x32u8],
        seq![0x30u8] != seq![0x37u8],
        seq![0x30u8] != seq![0x38u8],
        seq![0x31u8] != seq![0x32u8],
        seq![0x31u8] != seq![0x37u8],
        seq![0x31u8] != seq![0x38u8],
        seq![0x32u8] != seq![0x37u8],
        seq![0x32u8] != seq![0x38u8],
        seq![0x37u8] != seq![0x38u8],
        seq![0x31u8, 0x30u8] != seq![0x31u8, 0x31u8],
        seq![0x31u8, 0x30u8] != seq![0x31u8, 0x32u8],
        seq![0x31u8, 0x31u8] != seq![0x31u8, 0x32u8],
        seq![0x31u8, 0x30u8] != seq![0x35u8, 0x32u8],
        seq![0x31u8, 0x31u8] != seq![0x35u8, 0x32u8],
        seq![0x31u8, 0x32u8] != seq![0x35u8, 0x32u8],
{
    assert(seq![0x30u8][0] == 0x30 && seq![0x31u8][0] == 0x31 && seq![0x32u8][0] == 0x32
        && seq![0x37u8][0] == 0x37 && seq![0x38u8][0] == 0x38);
    assert(seq![0x31u8, 0x30u8][1] == 0x30 && seq![0x31u8, 0x31u8][1] == 0x31
        && seq![0x31u8, 0x32u8][1] == 0x32 && seq![0x35u8, 0x32u8][0] == 0x35
        && seq![0x31u8, 0x30u8][0] == 0x31 && seq![0x31u8, 0x31u8][0] == 0x31
        && seq![0x31u8, 0x32u8][0] == 0x31);
}

/// What the numbers of the commands stand for.
proof fn commands_by_number(s: ScreenView, p: Seq<Seq<u8>>, ms: u32)
    requires
        p.len() > 0,
    ensures
        p[0] == seq![0x30u8] || p[0] == seq![0x32u8] ==> p.len() > 1 ==> s.osc(p, ms) == (
        ScreenView { title: lossy_text(p[1]), ..s }),
        p[0] == seq![0x31u8] ==> p.len() > 1 ==> s.osc(p, ms) == (ScreenView {
            icon_title: lossy_text(p[1]),
            ..s
        }),
        p[0] == seq![0x37u8] ==> p.len() > 1 ==> s.osc(p, ms) == (ScreenView {
            cwd: Some(lossy_text(p[1])),
            ..s
        }),
        p[0] == seq![0x38u8] ==> p.len() > 2 ==> s.osc(p, ms) == s.linked(lossy_text(p[2])),
        p[0] == seq![0x31u8, 0x30u8] ==> s.osc(p, ms) == s.color_asked(
            p,
            ColorQuery::Foreground,
        ),
        p[0] == seq![0x31u8, 0x31u8] ==> s.osc(p, ms) == s.color_asked(
            p,
            ColorQuery::Background,
        ),
        p[0] == seq![0x31u8, 0x32u8] ==> s.osc(p, ms) == s.color_asked(p, ColorQuery::Cursor),
        p[0] == seq![0x31u8, 0x33u8, 0x33u8] ==> s.osc(p, ms) == s.shell_marked(p, ms),
        p[0] == seq![0x35u8, 0x32u8] ==> s.osc(p, ms) == s.clipboard_set(p),
{
    reveal(ScreenView::osc);
    numbers_in_bytes();
    numbers_differ(p[0]);
    assert(seq![0x31u8, 0x33u8, 0x33u8].len() == 3 && seq![0x35u8, 0x32u8].len() == 2);
    assert(seq![0x31u8, 0x30u8].len() == 2 && seq![0x31u8, 0x31u8].len() == 2);
    assert(seq![0x31u8, 0x32u8].len() == 2 && seq![0x30u8].len() == 1);
    assert(seq![0x31u8].len() == 1 && seq![0x32u8].len() == 1);
    assert(seq![0x37u8].len() == 1 && seq![0x38u8].len() == 1);
}

proof fn the_question_mark()
    ensures
        b("?"@) == seq![0x3fu8],
{
    numbers_in_bytes();
}

/// The title of the window (0 and 2), that of its icon (1) and the working directory (7)
/// are what the command says, each by its own number. Nothing else changes.
pub proof fn titles_and_directories(s: ScreenView, text: Seq<u8>, ms: u32)
    ensures
        s.osc(seq![seq![0x30u8], text], ms) == (ScreenView { title: lossy_text(text), ..s }),
        s.osc(seq![seq![0x32u8], text], ms) == (ScreenView { title: lossy_text(text), ..s }),
        s.osc(seq![seq![0x31u8], text], ms) == (ScreenView { icon_title: lossy_text(text), ..s }),
        s.osc(seq![seq![0x37u8], text], ms) == (ScreenView { cwd: Some(lossy_text(text)), ..s }),
{
    commands_by_number(s, seq![seq![0x30u8], text], ms);
    commands_by_number(s, seq![seq![0x32u8], text], ms);
    commands_by_number(s, seq![seq![0x31u8], text], ms);
    commands_by_number(s, seq![seq![0x37u8], text], ms);
}

/// From a link on, new cells carry the number of its target; cells of the same target
/// carry the same number, and no number changes its meaning. An empty target ends the
/// link.
pub proof fn links_lead_to_their_targets(
    s: ScreenView,
    params: Seq<u8>,
    url: Seq<u8>,
    ms: u32,
    k: int,
)
    requires
        crate::hyperlinks::table_wf(s.hyperlinks),
    ensures
        ({
            let t = s.osc(seq![seq![0x38u8], params, url], ms);
            let target = lossy_text(url);
            &&& t == (ScreenView {
                hyperlinks: t.hyperlinks,
                cursor: crate::cursor::Cursor {
                    hyperlink_id: t.cursor.hyperlink_id,
                    ..s.cursor
                },
                ..s
            })
            &&& target.len() == 0 ==> t.cursor.hyperlink_id is None && t.hyperlinks
                == s.hyperlinks
            &&& target.len() > 0 && s.hyperlinks.len() < u16::MAX ==> {
                &&& t.cursor.hyperlink_id matches Some(id) && id < t.hyperlinks.len()
                    && t.hyperlinks[id as int] == target
            }
            &&& 0 <= k < s.hyperlinks.len() ==> k < t.hyperlinks.len() && t.hyperlinks[k]
                == s.hyperlinks[k]
            &&& target.len() > 0 && 0 <= k < s.hyperlinks.len() && s.hyperlinks[k] == target
                ==> t.cursor.hyperlink_id == Some(k as u16)
        }),
{
    commands_by_number(s, seq![seq![0x38u8], params, url], ms);
    let target = lossy_text(url);
    if target.len() > 0 {
        if s.hyperlinks.len() > 0 {
            crate::hyperlinks::interning_is_stable(s.hyperlinks, target, 0);
        }
        if s.hyperlinks.contains(target) {
            s.hyperlinks.index_of_first_ensures(target);
        }
        if 0 <= k < s.hyperlinks.len() {
            crate::hyperlinks::interning_is_stable(s.hyperlinks, target, k);
        }
    }
}

/// A question for a color is remembered with the color that it asks for and the number
/// of answers before it: 10 for the text, 11 for the background, 12 for the cursor. To
/// set one does nothing.
pub proof fn colors_are_asked_for(s: ScreenView, what: Seq<u8>, ms: u32)
    requires
        s.replies.len() <= usize::MAX,
    ensures
        ({
            let t = s.osc(seq![seq![0x31u8, 0x30u8], what], ms);
            let u = s.osc(seq![seq![0x31u8, 0x31u8], what], ms);
            let v = s.osc(seq![seq![0x31u8, 0x32u8], what], ms);
            let n = s.replies.len() as usize;
            &&& what == seq![0x3fu8] ==> {
                &&& t == (ScreenView {
                    color_queries: s.color_queries.push((n, ColorQuery::Foreground)),
                    ..s
                })
                &&& u == (ScreenView {
                    color_queries: s.color_queries.push((n, ColorQuery::Background)),
                    ..s
                })
                &&& v == (ScreenView {
                    color_queries: s.color_queries.push((n, ColorQuery::Cursor)),
                    ..s
                })
            }
            &&& what != seq![0x3fu8] ==> t == s && u == s && v == s
        }),
{
    the_question_mark();
    commands_by_number(s, seq![seq![0x31u8, 0x30u8], what], ms);
    commands_by_number(s, seq![seq![0x31u8, 0x31u8], what], ms);
    commands_by_number(s, seq![seq![0x31u8, 0x32u8], what], ms);
}

/// Only the mark of the row of the cursor changed, and what is known of commands.
pub open spec fn only_marked(s: ScreenView, t: ScreenView) -> bool {
    let row = s.cursor.row.0 as int;
    &&& t == (ScreenView {
        active: t.active,
        command_running: t.command_running,
        blocks_completed: t.blocks_completed,
        last_block_exit: t.last_block_exit,
        last_block_duration: t.last_block_duration,
        ..s
    })
    &&& t.active.rows.len() == s.active.rows.len() && t.active.cols == s.active.cols
    &&& forall|r: int|
        0 <= r < s.active.rows.len() && r != row ==> #[trigger] t.active.rows[r]
            == s.active.rows[r]
    &&& t.active.rows[row] == (crate::row::RowView {
        mark: t.active.rows[row].mark,
        ..s.active.rows[row]
    })
}

proof fn flags_of_marks(f: u8, g: u8)
    by (bit_vector)
    requires
        g == 1 || g == 2 || g == 4 || g == 8 || g == 32 || g == 128,
    ensures
        (f | g) & g != 0,
        g != 1 ==> (f | g) & 1 == f & 1,
        g != 2 ==> (f | g) & 2 == f & 2,
        g != 4 ==> (f | g) & 4 == f & 4,
        g != 8 ==> (f | g) & 8 == f & 8,
        g != 32 ==> (f | g) & 32 == f & 32,
        g != 128 ==> (f | g) & 128 == f & 128,
        (f & !g) & g == 0,
        g != 1 ==> (f & !g) & 1 == f & 1,
        g != 2 ==> (f & !g) & 2 == f & 2,
        g != 4 ==> (f & !g) & 4 == f & 4,
        g != 8 ==> (f & !g) & 8 == f & 8,
        g != 32 ==> (f & !g) & 32 == f & 32,
        g != 128 ==> (f & !g) & 128 == f & 128,
{
}

/// The shell marks the row of the cursor: where a prompt begins (A) and ends (B), and
/// where output begins (C). Each letter sets its own mark and keeps the others. While
/// output comes, a command is running.
pub proof fn prompts_and_output_are_marked(s: ScreenView, ms: u32)
    requires
        s.in_bounds(),
        s.alt is None,
    ensures
        ({
            let row = s.cursor.row.0 as int;
            let n = seq![0x31u8, 0x33u8, 0x33u8];
            let old_mark = s.active.rows[row].mark;
            let a = s.osc(seq![n, seq![0x41u8]], ms);
            let e = s.osc(seq![n, seq![0x42u8]], ms);
            let c = s.osc(seq![n, seq![0x43u8]], ms);
            let others = |m: RowMark, flag: u8| {
                &&& m.has(flag)
                &&& flag != 1 ==> m.has(1) == old_mark.has(1)
                &&& flag != 2 ==> m.has(2) == old_mark.has(2)
                &&& flag != 4 ==> m.has(4) == old_mark.has(4)
                &&& flag != 8 ==> m.has(8) == old_mark.has(8)
                &&& m.exit_code == old_mark.exit_code
                &&& m.duration_ms == old_mark.duration_ms
            };
            &&& only_marked(s, a) && only_marked(s, e) && only_marked(s, c)
            &&& others(a.active.rows[row].mark, RowMark::PROMPT_START)
            &&& others(e.active.rows[row].mark, RowMark::PROMPT_END)
            &&& e.active.rows[row].mark.prompt_end_col == s.cursor.col.0
            &&& others(c.active.rows[row].mark, RowMark::OUTPUT_START)
            &&& !a.command_running && c.command_running
            &&& e.command_running == s.command_running
            &&& a.blocks_completed == s.blocks_completed && c.blocks_completed
                == s.blocks_completed
            &&& a.last_block_exit == s.last_block_exit && c.last_block_exit == s.last_block_exit
        }),
{
    let n = seq![0x31u8, 0x33u8, 0x33u8];
    let f: u8 = s.active.rows[s.cursor.row.0 as int].mark.flags;
    flags_of_marks(f, 1);
    flags_of_marks(f, 2);
    flags_of_marks(f, 8);
    let a = seq![n, seq![0x41u8]];
    let e = seq![n, seq![0x42u8]];
    let c = seq![n, seq![0x43u8]];
    commands_by_number(s, a, ms);
    commands_by_number(s, e, ms);
    commands_by_number(s, c, ms);
    assert(a[1][0] == 0x41 && e[1][0] == 0x42 && c[1][0] == 0x43);
    assert(s.osc(a, ms) == s.prompt_started());
    assert(s.osc(e, ms) == s.prompt_ended());
    assert(s.osc(c, ms) == s.output_started());
}

/// The end of a command (D) marks its row, counts it, and keeps its exit code, and the
/// time that it took if its start was seen. Then no command is running.
pub proof fn the_end_of_a_command_is_marked(s: ScreenView, code: nat, ms: u32)
    requires
        s.in_bounds(),
        s.alt is None,
        code <= i32::MAX,
    ensures
        ({
            let row = s.cursor.row.0 as int;
            let n = seq![0x31u8, 0x33u8, 0x33u8];
            let t = s.osc(seq![n, seq![0x44u8], decimal(code)], ms);
            let bare = s.osc(seq![n, seq![0x44u8]], ms);
            let m = t.active.rows[row].mark;
            &&& only_marked(s, t) && only_marked(s, bare)
            &&& m.has(RowMark::BLOCK_END) && bare.active.rows[row].mark.has(RowMark::BLOCK_END)
            &&& m.exit_of() matches Some(e) && e == code
            &&& t.last_block_exit matches Some(e) && e == code
            &&& bare.last_block_exit is None && bare.active.rows[row].mark.exit_of() is None
            &&& s.command_running ==> t.last_block_duration == Some(ms) && m.duration_of()
                == Some(ms)
            &&& !s.command_running ==> t.last_block_duration is None && m.duration_of() is None
            &&& !t.command_running && !bare.command_running
            &&& s.blocks_completed < u64::MAX ==> t.blocks_completed == s.blocks_completed + 1
        }),
{
    decimals_read_back(code);
    assert(crate::scan::is_digit(decimal(code)[0]));
    let old_mark = s.active.rows[s.cursor.row.0 as int].mark;
    let f: u8 = old_mark.flags;
    flags_of_marks(f, 4);
    flags_of_marks(f | 4, 128);
    flags_of_marks((f | 4) | 128, 32);
    flags_of_marks((f | 4) & !128, 32);
    assert(seq![0x44u8][0] == 0x44);
    let n = seq![0x31u8, 0x33u8, 0x33u8];
    let p = seq![n, seq![0x44u8], decimal(code)];
    let q = seq![n, seq![0x44u8]];
    commands_by_number(s, p, ms);
    commands_by_number(s, q, ms);
    let time = if s.command_running {
        Some(ms)
    } else {
        None
    };
    assert(p[2] == decimal(code));
    assert(s.osc(p, ms) == s.block_completed(Some(code as i32), time));
    assert(s.osc(q, ms) == s.block_completed(None, time));
    assert(RowMark::BLOCK_END == 4 && RowMark::HAS_EXIT == 128 && RowMark::HAS_DURATION == 32);
    assert(!128u8 == 127u8 && !32u8 == 223u8) by (bit_vector);
}

/// What a program puts on the clipboard is what its text decodes to, if it is for the
/// clipboard or the selection. It is never told what is there.
pub proof fn clipboards_are_written(
    s: ScreenView,
    selection: u8,
    payload: Seq<u8>,
    ms: u32,
    data: Seq<u8>,
)
    ensures
        base64_decoded(payload) == Some(data) ==> {
            let t = s.osc(seq![seq![0x35u8, 0x32u8], seq![selection], payload], ms);
            &&& (selection == 0x63 || selection == 0x73) && payload != seq![0x3fu8] && data.len()
                <= 4194304 ==> t == (ScreenView {
                clipboard_writes: s.clipboard_writes.push(data),
                ..s
            })
            &&& !(selection == 0x63 || selection == 0x73) || payload == seq![0x3fu8] || data.len()
                > 4194304 ==> t == s
        },
{
    the_question_mark();
    commands_by_number(s, seq![seq![0x35u8, 0x32u8], seq![selection], payload], ms);
    assert(seq![selection][0] == selection);
}

/// The names of a question for capabilities are answered one by one, in their order.
pub proof fn capabilities_are_answered_one_by_one(s: ScreenView, name: Seq<u8>, rest: Seq<u8>)
    requires
        !name.contains(0x3bu8),
    ensures
        s.capabilities_reported(name + seq![0x3bu8] + rest) == s.capabilities_reported(
            name,
        ).capabilities_reported(rest),
{
    let all = name + seq![0x3bu8] + rest;
    assert forall|k: int| 0 <= k < name.len() implies name[k] != 0x3b by {
        assert(name.contains(name[k]));
    }
    assert forall|k: int| 0 <= k < name.len() implies all[k] != 0x3b by {
        assert(all[k] == name[k]);
    }
    crate::scan::first_is(all, 0x3b, name.len() as int);
    crate::scan::first_is(name, 0x3b, name.len() as int);
    assert(all.take(name.len() as int) =~= name);
    assert(name.take(name.len() as int) =~= name);
    assert(all.skip(name.len() as int + 1) =~= rest);
}

/// The arguments of a file are told apart by semicolons.
pub proof fn arguments_are_told_apart(a: Seq<u8>, rest: Seq<u8>, arg: Seq<u8>)
    requires
        !a.contains(0x3bu8),
    ensures
        super::osc::has_argument(a, arg) == (a == arg),
        super::osc::has_argument(a + seq![0x3bu8] + rest, arg) == (a == arg
            || super::osc::has_argument(rest, arg)),
{
    let all = a + seq![0x3bu8] + rest;
    assert forall|k: int| 0 <= k < a.len() implies a[k] != 0x3b by {
        assert(a.contains(a[k]));
    }
    assert forall|k: int| 0 <= k < a.len() implies all[k] != 0x3b by {
        assert(all[k] == a[k]);
    }
    crate::scan::first_is(all, 0x3b, a.len() as int);
    crate::scan::first_is(a, 0x3b, a.len() as int);
    assert(all.take(a.len() as int) =~= a);
    assert(a.take(a.len() as int) =~= a);
    assert(all.skip(a.len() as int + 1) =~= rest);
}

/// A file is shown only if it asks for it (`inline=1`), and then as an image of its own
/// with the data as it came.
pub proof fn only_inline_files_are_shown(s: ScreenView, args: Seq<char>, data: Seq<char>)
    requires
        !args.contains(':'),
        s.images.wf(),
    ensures
        ({
            let t = s.file_taken(seq!['F', 'i', 'l', 'e', '='] + args + seq![':'] + data);
            let bytes = vstd::utf8::encode_utf8(data);
            let inline = super::osc::has_argument(
                vstd::utf8::encode_utf8(args),
                seq![0x69u8, 0x6eu8, 0x6cu8, 0x69u8, 0x6eu8, 0x65u8, 0x3du8, 0x31u8],
            );
            &&& !inline ==> t == s
            &&& inline && s.images.bytes + bytes.len() <= usize::MAX ==> t.image_id_seq
                == s.image_id_seq.wrapping_add(1)
        }),
{
    crate::iterm::files::a_file_is_taken_apart(args, data);
    reveal_strlit("inline=1");
    is_ascii_chars_encode_utf8("inline=1"@);
    assert(b("inline=1"@) =~= seq![
        0x69u8,
        0x6eu8,
        0x6cu8,
        0x69u8,
        0x6eu8,
        0x65u8,
        0x3du8,
        0x31u8,
    ]);
    let size = crate::iterm::iterm_size(
        vstd::utf8::encode_utf8(args),
        base64_decoded(vstd::utf8::encode_utf8(crate::iterm::data_head(data))),
    );
    super::pictures::showing_counts(s, args, data, size);
}

} // verus!
