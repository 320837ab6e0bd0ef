//! The table of hyperlink targets (OSC 8). Cells refer to its entries by number.
use crate::text::same_text;
use vstd::prelude::*;

verus! {

/// The number of an entry of the table.
pub type HyperlinkId = u16;

/// The distinct targets seen so far, in the order in which they came.
#[derive(Debug, Clone)]
pub struct HyperlinkTable {
    urls: Vec<String>,
}

/// The texts of a list of strings.
pub open spec fn texts(v: Seq<String>) -> Seq<Seq<char>> {
    Seq::new(v.len(), |i: int| v[i]@)
}

/// The table after `url` was looked up, and the number that was given.
pub open spec fn interned(urls: Seq<Seq<char>>, url: Seq<char>) -> (Seq<Seq<char>>, Option<u16>) {
    if urls.contains(url) {
        (urls, Some(urls.index_of_first(url)->0 as u16))
    } else if urls.len() >= u16::MAX {
        (urls, None)
    } else {
        (urls.push(url), Some(urls.len() as u16))
    }
}

/// No target stands in the table twice, and every position is a number.
pub open spec fn table_wf(urls: Seq<Seq<char>>) -> bool {
    urls.len() <= u16::MAX && urls.no_duplicates()
}

impl View for HyperlinkTable {
    type V = Seq<Seq<char>>;

    closed spec fn view(&self) -> Seq<Seq<char>> {
        texts(self.urls@)
    }
}

impl HyperlinkTable {
    /// The number of `url`, which is added to the table if it is new. `None` if it
    /// is new and the table is full.
    pub fn intern(&mut self, url: &str) -> (id: Option<HyperlinkId>)
        requires
            table_wf(old(self)@),
        ensures
            (final(self)@, id) == interned(old(self)@, url@),
            table_wf(final(self)@),
    {
        let ghost before = self@;
        let mut i: usize = 0;
        while i < self.urls.len()
            invariant
                i <= self.urls.len(),
                self@ == before,
                before == texts(self.urls@),
                table_wf(before),
                forall|k: int| 0 <= k < i ==> before[k] != url@,
            decreases self.urls.len() - i,
        {
            if same_text(self.urls[i].as_str(), url) {
                proof {
                    assert(before[i as int] == url@);
                    before.index_of_first_ensures(url@);
                    assert(before.index_of_first(url@) == Some(i as int));
                }
                return Some(i as u16);
            }
            i += 1;
        }
        assert(!before.contains(url@));
        if self.urls.len() >= u16::MAX as usize {
            return None;
        }
        let id: u16 = self.urls.len() as u16;
        self.urls.push(url.to_owned());
        assert(self@ =~= before.push(url@));
        Some(id)
    }

    /// The target with the given number.
    pub fn get(&self, id: HyperlinkId) -> (url: Option<&str>)
        ensures
            match url {
                Some(text) => id < self@.len() && text@ == self@[id as int],
                None => id >= self@.len(),
            },
    {
        if (id as usize) < self.urls.len() {
            Some(self.urls[id as usize].as_str())
        } else {
            None
        }
    }
}

impl Default for HyperlinkTable {
    fn default() -> (t: HyperlinkTable)
        ensures
            t@ == Seq::<Seq<char>>::empty(),
            table_wf(t@),
    {
        let t = HyperlinkTable { urls: Vec::new() };
        assert(t@ =~= Seq::empty());
        t
    }
}

/// A number that was given out leads back to its target, the same target gets the
/// same number again, and numbers given out before keep their targets.
pub proof fn interning_is_stable(urls: Seq<Seq<char>>, url: Seq<char>, id: int)
    requires
        table_wf(urls),
        0 <= id < urls.len(),
    ensures
        interned(urls, url).1 matches Some(n) ==> n < interned(urls, url).0.len() && interned(
            urls,
            url,
        ).0[n as int] == url && interned(interned(urls, url).0, url) == (
            interned(urls, url).0,
            Some(n),
        ),
        interned(urls, url).0[id] == urls[id],
        interned(urls, url).1 is None <==> !urls.contains(url) && urls.len() == u16::MAX,
{
    if urls.contains(url) {
        urls.index_of_first_ensures(url);
    } else if urls.len() < u16::MAX {
        let grown = urls.push(url);
        assert(grown[urls.len() as int] == url);
        grown.index_of_first_ensures(url);
        let k = grown.index_of_first(url)->0;
        if k < urls.len() {
            assert(urls[k] == url);
        }
    }
}

/// Distinct targets get distinct numbers.
pub proof fn distinct_targets_get_distinct_numbers(
    urls: Seq<Seq<char>>,
    a: Seq<char>,
    b: Seq<char>,
)
    requires
        table_wf(urls),
        a != b,
        interned(urls, a).1 is Some,
        interned(interned(urls, a).0, b).1 is Some,
    ensures
        interned(urls, a).1 != interned(interned(urls, a).0, b).1,
{
    if urls.contains(a) {
        urls.index_of_first_ensures(a);
    }
    let next = interned(urls, a).0;
    if next.contains(b) {
        next.index_of_first_ensures(b);
    }
}

} // verus!
