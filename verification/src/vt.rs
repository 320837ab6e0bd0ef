//! The parser of escape sequences, and the actions that it reports.
use vstd::prelude::*;
use vstd::slice::slice_to_vec;

verus! {

#[verifier::external_type_specification]
#[verifier::external_body]
pub struct ExVteParser<const N: usize>(vte::Parser<N>);

#[verifier::external_type_specification]
#[verifier::external_body]
pub struct ExVteParams(vte::Params);

/// An action that the parser of escape sequences reports.
#[derive(Debug)]
pub enum Action {
    /// A character of text.
    Print(char),
    /// A control character.
    Execute(u8),
    /// The beginning of a device control string: parameters, intermediates, and the
    /// letter that selects its meaning.
    Hook(Vec<Vec<u16>>, Vec<u8>, char),
    /// A byte of a device control string.
    Put(u8),
    /// The end of a device control string.
    Unhook,
    /// An operating system command.
    Osc(Vec<Vec<u8>>),
    /// A control sequence: parameters, intermediates and the final letter.
    Csi(Vec<Vec<u16>>, Vec<u8>, char),
    /// An escape sequence: intermediates and the final byte.
    Esc(Vec<u8>, u8),
}

/// The contents of an action.
pub ghost enum ActionView {
    Print(char),
    Execute(u8),
    Hook(Seq<Seq<u16>>, Seq<u8>, char),
    Put(u8),
    Unhook,
    Osc(Seq<Seq<u8>>),
    Csi(Seq<Seq<u16>>, Seq<u8>, char),
    Esc(Seq<u8>, u8),
}

impl View for Action {
    type V = ActionView;

    open spec fn view(&self) -> ActionView {
        match self {
            Action::Print(c) => ActionView::Print(*c),
            Action::Execute(b) => ActionView::Execute(*b),
            Action::Hook(p, i, c) => ActionView::Hook(crate::screen::sgr::groups(p@), i@, *c),
            Action::Put(b) => ActionView::Put(*b),
            Action::Unhook => ActionView::Unhook,
            Action::Osc(p) => ActionView::Osc(crate::screen::byte_strings(p@)),
            Action::Csi(p, i, c) => ActionView::Csi(crate::screen::sgr::groups(p@), i@, *c),
            Action::Esc(i, b) => ActionView::Esc(i@, *b),
        }
    }
}

/// The contents of a list of actions.
pub open spec fn actions_view(v: Seq<Action>) -> Seq<ActionView> {
    Seq::new(v.len(), |i: int| v[i]@)
}

/// Collects the actions that are reported.
pub struct Recorder {
    pub actions: Vec<Action>,
}

/// The parameters of a sequence, each with its sub-parameters.
pub uninterp spec fn groups_held(p: vte::Params) -> Seq<Seq<u16>>;

/// `Params::iter`: the parameters, each with its sub-parameters.
#[verifier::external_body]
fn param_groups(params: &vte::Params) -> (r: Vec<Vec<u16>>)
    ensures
        crate::screen::sgr::groups(r@) == groups_held(*params),
{
    params.iter().map(<[u16]>::to_vec).collect()
}

fn byte_lists(params: &[&[u8]]) -> (r: Vec<Vec<u8>>)
    ensures
        r@.len() == params@.len(),
        forall|i: int| 0 <= i < params@.len() ==> (#[trigger] r@[i])@ == params@[i]@,
{
    let mut out: Vec<Vec<u8>> = Vec::new();
    let mut i: usize = 0;
    while i < params.len()
        invariant
            i <= params.len(),
            out@.len() == i,
            forall|k: int| 0 <= k < i ==> (#[trigger] out@[k])@ == params@[k]@,
        decreases params.len() - i,
    {
        out.push(slice_to_vec(params[i]));
        i += 1;
    }
    out
}

impl vte::Perform for Recorder {
    fn print(&mut self, c: char)
        ensures
            final(self).actions@ == old(self).actions@.push(Action::Print(c)),
    {
        self.actions.push(Action::Print(c));
    }

    fn execute(&mut self, byte: u8)
        ensures
            final(self).actions@ == old(self).actions@.push(Action::Execute(byte)),
    {
        self.actions.push(Action::Execute(byte));
    }

    fn hook(&mut self, params: &vte::Params, intermediates: &[u8], _ignore: bool, action: char)
        ensures
            final(self).actions@.drop_last() == old(self).actions@,
            final(self).actions@.last()@ == ActionView::Hook(
                groups_held(*params),
                intermediates@,
                action,
            ),
    {
        self.actions.push(
            Action::Hook(param_groups(params), slice_to_vec(intermediates), action),
        );
    }

    fn put(&mut self, byte: u8)
        ensures
            final(self).actions@ == old(self).actions@.push(Action::Put(byte)),
    {
        self.actions.push(Action::Put(byte));
    }

    fn unhook(&mut self)
        ensures
            final(self).actions@ == old(self).actions@.push(Action::Unhook),
    {
        self.actions.push(Action::Unhook);
    }

    fn osc_dispatch(&mut self, params: &[&[u8]], _bell_terminated: bool)
        ensures
            final(self).actions@.drop_last() == old(self).actions@,
            final(self).actions@.last()@ == ActionView::Osc(
                Seq::new(params@.len(), |i: int| params@[i]@),
            ),
    {
        let lists: Vec<Vec<u8>> = byte_lists(params);
        assert(crate::screen::byte_strings(lists@) =~= Seq::new(
            params@.len(),
            |i: int| params@[i]@,
        ));
        self.actions.push(Action::Osc(lists));
    }

    fn csi_dispatch(
        &mut self,
        params: &vte::Params,
        intermediates: &[u8],
        _ignore: bool,
        action: char,
    )
        ensures
            final(self).actions@.drop_last() == old(self).actions@,
            final(self).actions@.last()@ == ActionView::Csi(
                groups_held(*params),
                intermediates@,
                action,
            ),
    {
        self.actions.push(
            Action::Csi(param_groups(params), slice_to_vec(intermediates), action),
        );
    }

    fn esc_dispatch(&mut self, intermediates: &[u8], _ignore: bool, byte: u8)
        ensures
            final(self).actions@.drop_last() == old(self).actions@,
            final(self).actions@.last()@ == ActionView::Esc(intermediates@, byte),
    {
        self.actions.push(Action::Esc(slice_to_vec(intermediates), byte));
    }
}

/// The pieces of input that a parser was given so far, in their order.
pub uninterp spec fn pieces_fed(p: vte::Parser) -> Seq<Seq<u8>>;

/// The actions that a parser reports of a piece of input, after earlier pieces.
pub uninterp spec fn actions_of(fed: Seq<Seq<u8>>, piece: Seq<u8>) -> Seq<ActionView>;

/// `vte::Parser::new`: a parser that was given nothing yet.
#[verifier::external_body]
pub(crate) fn new_parser() -> (p: vte::Parser)
    ensures
        pieces_fed(p) == Seq::<Seq<u8>>::empty(),
{
    vte::Parser::new()
}

/// `vte::Parser::advance`: gives a piece of input to the parser, and returns the
/// actions that it reports, in their order. They follow from this piece and the
/// pieces before it.
#[verifier::external_body]
pub(crate) fn advance_parser(p: &mut vte::Parser, piece: &[u8]) -> (actions: Vec<Action>)
    ensures
        pieces_fed(*final(p)) == pieces_fed(*old(p)).push(piece@),
        actions_view(actions@) == actions_of(pieces_fed(*old(p)), piece@),
{
    let mut recorder = Recorder { actions: Vec::new() };
    p.advance(&mut recorder, piece);
    recorder.actions
}

/// The grapheme clusters of a text.
pub uninterp spec fn clusters_of(text: Seq<char>) -> Seq<Seq<char>>;

/// The texts of a list of strings, one after the other.
pub open spec fn joined(parts: Seq<Seq<char>>) -> Seq<char>
    decreases parts.len(),
{
    if parts.len() == 0 {
        Seq::empty()
    } else {
        joined(parts.drop_last()) + parts.last()
    }
}

/// `UnicodeSegmentation::graphemes`: the extended grapheme clusters of a text, in
/// their order. None of them is empty, and together they are the text.
#[verifier::external_body]
pub(crate) fn split_clusters(text: &str) -> (r: Vec<String>)
    ensures
        crate::hyperlinks::texts(r@) == clusters_of(text@),
        joined(crate::hyperlinks::texts(r@)) == text@,
        forall|i: int| 0 <= i < r@.len() ==> (#[trigger] r@[i])@.len() > 0,
{
    unicode_segmentation::UnicodeSegmentation::graphemes(text, true).map(String::from).collect()
}

} // verus!
