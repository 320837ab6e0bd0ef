//! Operating system commands and device control strings.
use super::model::{b, d, first_of, ScreenView};
use super::{byte_strings, ColorQuery, Screen};
use crate::graphics::{ImageFormat, ImageProtocol};
use crate::iterm::{base64_decode, base64_decoded, iterm_dimensions, parse_iterm_file};
use crate::mark::RowMark;
use crate::reply::{push_bytes, push_number, push_text};
use crate::scan::{cut, parse_i32};
use crate::terminfo::{hex_decode, hex_encode, lookup, Capability};
use crate::text::same_bytes;
use vstd::prelude::*;
use vstd::utf8::{decode_utf8, encode_utf8, valid_utf8};

verus! {

broadcast use crate::row::group_contents;

/// The largest clipboard that a program may set.
pub const OSC52_MAX_BYTES: usize = 4_194_304;

/// `Instant::now`: a reading of the clock. Which one, nothing here says.
#[verifier::external_body]
fn clock_now() -> (t: std::time::Instant) {
    std::time::Instant::now()
}

/// `Instant::elapsed`: the time since a reading of the clock. How long that is, nothing
/// here says.
#[verifier::external_body]
fn clock_elapsed(start: &std::time::Instant) -> (t: std::time::Duration) {
    start.elapsed()
}

/// The whole milliseconds in a duration.
pub uninterp spec fn millis_in(t: std::time::Duration) -> u128;

/// `Duration::as_millis`: the whole milliseconds in a duration.
#[verifier::external_body]
fn whole_millis(t: &std::time::Duration) -> (ms: u128)
    ensures
        ms == millis_in(*t),
{
    t.as_millis()
}

/// A number of milliseconds, as far as it can be recorded.
pub open spec fn clamped(ms: u128) -> u32 {
    if ms > u32::MAX {
        u32::MAX
    } else {
        ms as u32
    }
}

/// The milliseconds that are recorded of a duration.
pub open spec fn recorded_millis(t: std::time::Duration) -> u32 {
    clamped(millis_in(t))
}

/// The milliseconds that are recorded of a duration.
pub fn clamped_millis(t: &std::time::Duration) -> (ms: u32)
    ensures
        ms == recorded_millis(*t),
{
    let whole: u128 = whole_millis(t);
    if whole > u32::MAX as u128 {
        u32::MAX
    } else {
        whole as u32
    }
}

/// The text of bytes that need not be valid UTF-8.
pub uninterp spec fn lossy_text(bytes: Seq<u8>) -> Seq<char>;

/// `String::from_utf8_lossy`: the text that the bytes encode. Where they are no
/// valid UTF-8, replacement characters stand in the text.
#[verifier::external_body]
fn text_of_bytes(bytes: &[u8]) -> (text: String)
    ensures
        text@ == lossy_text(bytes@),
        valid_utf8(bytes@) ==> text@ == decode_utf8(bytes@),
{
    String::from_utf8_lossy(bytes).into_owned()
}

/// `str::from_utf8`: the text that the bytes encode, if they are valid UTF-8.
#[verifier::external_body]
fn utf8_text(bytes: &[u8]) -> (r: Option<&str>)
    ensures
        match r {
            Some(text) => valid_utf8(bytes@) && text@ == decode_utf8(bytes@),
            None => !valid_utf8(bytes@),
        },
{
    std::str::from_utf8(bytes).ok()
}

/// The parameter with index `i`, if there is one.
pub open spec fn field(p: Seq<Seq<u8>>, i: int) -> Option<Seq<u8>> {
    if i < p.len() {
        Some(p[i])
    } else {
        None
    }
}

/// The parameters from index `k` on, joined with semicolons.
pub open spec fn rejoined(p: Seq<Seq<u8>>, k: int) -> Seq<u8>
    decreases p.len(),
{
    if p.len() <= k || p.len() == 0 {
        Seq::empty()
    } else if p.len() == k + 1 {
        p.last()
    } else {
        rejoined(p.drop_last(), k).push(0x3b) + p.last()
    }
}

/// Whether one of the arguments, separated by semicolons, is `arg`.
pub open spec fn has_argument(args: Seq<u8>, arg: Seq<u8>) -> bool
    decreases args.len(),
{
    crate::scan::before(args, 0x3b) == arg || (crate::scan::after(args, 0x3b) matches Some(rest)
        && rest.len() < args.len() && has_argument(rest, arg))
}

/// The reply to the question for the capability with this name.
pub open spec fn capability_reply(name: Seq<u8>, term: Seq<char>) -> Seq<u8> {
    let hex = b(crate::terminfo::hex_text(name));
    let end = b("\x1b\\"@);
    match crate::terminfo::capability(decode_utf8(name), term) {
        crate::terminfo::CapabilityView::Boolean => b("\x1bP1+r"@) + hex + end,
        crate::terminfo::CapabilityView::Num(n) => b("\x1bP1+r"@) + hex + b("="@) + b(
            crate::terminfo::hex_text(d(n as int)),
        ) + end,
        crate::terminfo::CapabilityView::Str(s) => b("\x1bP1+r"@) + hex + b("="@) + b(
            crate::terminfo::hex_text(encode_utf8(s)),
        ) + end,
        crate::terminfo::CapabilityView::Unsupported => b("\x1bP0+r"@) + hex + end,
    }
}

impl ScreenView {
    /// The annotation of the cursor's row changed.
    pub open spec fn with_row_mark(self, mark: RowMark) -> ScreenView {
        let row = self.cursor.row.0;
        if row < self.active.rows.len() {
            ScreenView { active: self.active.with_mark(row as int, mark), ..self }
        } else {
            self
        }
    }

    /// The annotation of the cursor's row.
    pub open spec fn row_mark(self) -> RowMark {
        self.active.rows[self.cursor.row.0 as int].mark
    }

    /// A prompt begins. A command that is still running is forgotten.
    pub open spec fn prompt_started(self) -> ScreenView {
        ScreenView { command_running: false, ..self }.with_row_mark(
            self.row_mark().with_flag(RowMark::PROMPT_START),
        )
    }

    /// A prompt ends at the cursor.
    pub open spec fn prompt_ended(self) -> ScreenView {
        self.with_row_mark(self.row_mark().with_prompt_end(self.cursor.col.0))
    }

    /// A command runs and its output begins.
    pub open spec fn output_started(self) -> ScreenView {
        ScreenView { command_running: true, ..self }.with_row_mark(
            self.row_mark().with_flag(RowMark::OUTPUT_START),
        )
    }

    /// A block is complete, with its exit code and duration as far as known.
    pub open spec fn block_completed(self, exit: Option<i32>, ms: Option<u32>) -> ScreenView {
        ScreenView {
            command_running: false,
            blocks_completed: self.blocks_completed.wrapping_add(1),
            last_block_exit: exit,
            last_block_duration: ms,
            ..self
        }.with_row_mark(
            self.row_mark().with_flag(RowMark::BLOCK_END).with_exit(exit).with_duration(ms),
        )
    }

    /// A mark of shell integration (OSC 133). On the alternate screen there are none.
    /// `ms` is the time since the running command began.
    pub open spec fn shell_marked(self, p: Seq<Seq<u8>>, ms: u32) -> ScreenView {
        let letter = match field(p, 1) {
            Some(s) => first_of(s),
            None => None,
        };
        if self.alt is Some {
            self
        } else if letter == Some(0x41u8) {
            self.prompt_started()
        } else if letter == Some(0x43u8) {
            self.output_started()
        } else if letter == Some(0x44u8) {
            self.block_completed(
                match field(p, 2) {
                    Some(s) => crate::command::as_i32(s),
                    None => None,
                },
                if self.command_running {
                    Some(ms)
                } else {
                    None
                },
            )
        } else if letter == Some(0x42u8) {
            self.prompt_ended()
        } else {
            self
        }
    }

    /// A question for a color recorded, with the number of replies before it. Setting
    /// a color is not supported.
    pub open spec fn color_asked(self, p: Seq<Seq<u8>>, query: ColorQuery) -> ScreenView {
        if field(p, 1) == Some(b("?"@)) {
            ScreenView {
                color_queries: self.color_queries.push((self.replies.len() as usize, query)),
                ..self
            }
        } else {
            self
        }
    }

    /// The clipboard set to what the payload decoded to, if it did and is not too
    /// large.
    pub open spec fn clipboard_stored(self, decoded: Option<Seq<u8>>) -> ScreenView {
        match decoded {
            Some(bytes) => if bytes.len() <= OSC52_MAX_BYTES {
                ScreenView { clipboard_writes: self.clipboard_writes.push(bytes), ..self }
            } else {
                self
            },
            None => self,
        }
    }

    /// The clipboard set (OSC 52). Reading it is not supported, nor any selection but
    /// the clipboard and the default.
    pub open spec fn clipboard_set(self, p: Seq<Seq<u8>>) -> ScreenView {
        let selection: u8 = match field(p, 1) {
            Some(s) => match first_of(s) {
                Some(c) => c,
                None => 0x63,
            },
            None => 0x63,
        };
        match field(p, 2) {
            Some(payload) => if payload != b("?"@) && (selection == 0x63 || selection == 0x73) {
                self.clipboard_stored(base64_decoded(payload))
            } else {
                self
            },
            None => self,
        }
    }

    /// The hyperlink of new cells set to a target; an empty one ends it.
    pub open spec fn linked(self, url: Seq<char>) -> ScreenView {
        if url.len() == 0 {
            ScreenView {
                cursor: crate::cursor::Cursor { hyperlink_id: None, ..self.cursor },
                ..self
            }
        } else {
            let (table, id) = crate::hyperlinks::interned(self.hyperlinks, url);
            ScreenView {
                hyperlinks: table,
                cursor: crate::cursor::Cursor { hyperlink_id: id, ..self.cursor },
                ..self
            }
        }
    }

    /// A file image shown, where `size` is its size in pixels.
    pub open spec fn file_shown(
        self,
        args: Seq<char>,
        data: Seq<char>,
        size: Option<(u32, u32)>,
    ) -> ScreenView {
        self.shown(
            ImageProtocol::Iterm2,
            ImageFormat::Png,
            match size {
                Some(s) => s,
                None => (0, 0),
            },
            encode_utf8(data),
            Some(args),
        )
    }

    /// The body of OSC 1337 taken in: a file that is to be shown inline.
    pub open spec fn file_taken(self, body: Seq<char>) -> ScreenView {
        match crate::iterm::iterm_file(body) {
            Some((args, data)) => if has_argument(encode_utf8(args), b("inline=1"@)) {
                self.file_shown(
                    args,
                    data,
                    crate::iterm::iterm_size(
                        encode_utf8(args),
                        base64_decoded(encode_utf8(crate::iterm::data_head(data))),
                    ),
                )
            } else {
                self
            },
            None => self,
        }
    }

    /// What an operating system command does, where `ms` is the time since the
    /// running command began.
    #[verifier::opaque]
    pub open spec fn osc(self, p: Seq<Seq<u8>>, ms: u32) -> ScreenView {
        if p.len() == 0 {
            self
        } else if p[0] == b("0"@) || p[0] == b("2"@) {
            match field(p, 1) {
                Some(s) => ScreenView { title: lossy_text(s), ..self },
                None => self,
            }
        } else if p[0] == b("1"@) {
            match field(p, 1) {
                Some(s) => ScreenView { icon_title: lossy_text(s), ..self },
                None => self,
            }
        } else if p[0] == b("7"@) {
            match field(p, 1) {
                Some(s) => ScreenView { cwd: Some(lossy_text(s)), ..self },
                None => self,
            }
        } else if p[0] == b("8"@) {
            self.linked(
                match field(p, 2) {
                    Some(s) => lossy_text(s),
                    None => Seq::empty(),
                },
            )
        } else if p[0] == b("10"@) {
            self.color_asked(p, ColorQuery::Foreground)
        } else if p[0] == b("11"@) {
            self.color_asked(p, ColorQuery::Background)
        } else if p[0] == b("12"@) {
            self.color_asked(p, ColorQuery::Cursor)
        } else if p[0] == b("133"@) {
            self.shell_marked(p, ms)
        } else if p[0] == b("52"@) {
            self.clipboard_set(p)
        } else if p[0] == b("1337"@) {
            if self.alt is Some {
                self
            } else {
                self.file_taken(lossy_text(rejoined(p, 1)))
            }
        } else {
            self
        }
    }

    /// The capabilities asked for, answered one by one. A name that is no valid
    /// hexadecimal text is passed over.
    pub open spec fn capabilities_reported(self, names: Seq<u8>) -> ScreenView
        decreases names.len(),
    {
        let s = match crate::terminfo::hex_bytes(crate::scan::before(names, 0x3b)) {
            Some(name) => if name.len() > 0 && valid_utf8(name) {
                self.replied(capability_reply(name, self.term))
            } else {
                self
            },
            None => self,
        };
        match crate::scan::after(names, 0x3b) {
            Some(rest) => if rest.len() < names.len() {
                s.capabilities_reported(rest)
            } else {
                s
            },
            None => s,
        }
    }

    /// What a device control string does: a question for capabilities, or a sixel
    /// image.
    #[verifier::opaque]
    pub open spec fn dcs(
        self,
        inter: Seq<u8>,
        action: u8,
        p: Seq<Seq<u16>>,
        payload: Seq<u8>,
    ) -> ScreenView {
        if first_of(inter) == Some(0x2bu8) && action == 0x71 {
            if valid_utf8(payload) {
                self.capabilities_reported(payload)
            } else {
                self
            }
        } else if action == 0x71 && inter.len() == 0 {
            self.sixel(p, payload)
        } else {
            self
        }
    }
}

/// True if the bytes are those of the text.
fn says(bytes: &Vec<u8>, text: &str) -> (r: bool)
    ensures
        r == (bytes@ == b(text@)),
{
    same_bytes(bytes.as_slice(), text.as_bytes())
}

fn leading(params: &[Vec<u8>], i: usize) -> (r: Option<u8>)
    ensures
        r == (match field(byte_strings(params@), i as int) {
            Some(s) => first_of(s),
            None => None,
        }),
{
    if i < params.len() && params[i].len() > 0 {
        Some(params[i][0])
    } else {
        None
    }
}

fn has_arg(args: &[u8], arg: &[u8]) -> (r: bool)
    ensures
        r == has_argument(args@, arg@),
{
    let mut rest: &[u8] = args;
    loop
        invariant
            has_argument(args@, arg@) == has_argument(rest@, arg@),
        decreases rest@.len(),
    {
        let (kv, tail) = cut(rest, 0x3b);
        if same_bytes(kv, arg) {
            return true;
        }
        match tail {
            Some(t) => {
                proof {
                    crate::scan::first_bounds(rest@, 0x3b);
                }
                rest = t;
            },
            None => {
                return false;
            },
        }
    }
}

fn rejoin(params: &[Vec<u8>]) -> (r: Vec<u8>)
    ensures
        r@ == rejoined(byte_strings(params@), 1),
{
    let ghost p = byte_strings(params@);
    let mut joined: Vec<u8> = Vec::new();
    if params.len() <= 1 {
        return joined;
    }
    push_bytes(&mut joined, params[1].as_slice());
    let mut i: usize = 2;
    assert(p.take(2).last() == p[1]);
    assert(joined@ =~= p[1]);
    while i < params.len()
        invariant
            2 <= i <= params.len(),
            p == byte_strings(params@),
            joined@ == rejoined(p.take(i as int), 1),
        decreases params.len() - i,
    {
        assert(p.take(i + 1).drop_last() =~= p.take(i as int));
        joined.push(0x3b);
        push_bytes(&mut joined, params[i].as_slice());
        i += 1;
    }
    assert(p.take(i as int) =~= p);
    joined
}

impl Screen {
    fn set_row_mark(&mut self, mark: RowMark)
        requires
            old(self)@.wf(),
        ensures
            final(self)@ == old(self)@.with_row_mark(mark),
            final(self)@.wf(),
    {
        let ghost before = self@;
        let row: usize = self.cursor.row.get() as usize;
        if row < self.active.rows.len() {
            self.active.rows[row].mark = mark;
            assert(self@.active.rows =~= before.active.with_mark(row as int, mark).rows);
        }
    }

    fn get_row_mark(&self) -> (mark: RowMark)
        requires
            self@.wf(),
        ensures
            self@.cursor.row.0 < self@.active.rows.len() ==> mark == self@.row_mark(),
    {
        let row: usize = self.cursor.row.get() as usize;
        if row < self.active.rows.len() {
            assert(self.active.rows@[row as int]@ == self@.active.rows[row as int]);
            self.active.rows[row].mark
        } else {
            RowMark::default()
        }
    }

    fn start_prompt(&mut self)
        requires
            old(self)@.wf(),
        ensures
            final(self)@ == old(self)@.prompt_started(),
            final(self)@.wf(),
    {
        self.pending_command_start = None;
        let mut mark = self.get_row_mark();
        mark.set(RowMark::PROMPT_START);
        self.set_row_mark(mark);
    }

    fn end_prompt(&mut self)
        requires
            old(self)@.wf(),
        ensures
            final(self)@ == old(self)@.prompt_ended(),
            final(self)@.wf(),
    {
        let mut mark = self.get_row_mark();
        mark.set_prompt_end(self.cursor.col.get());
        self.set_row_mark(mark);
    }

    fn start_output(&mut self)
        requires
            old(self)@.wf(),
        ensures
            final(self)@ == old(self)@.output_started(),
            final(self)@.wf(),
    {
        self.pending_command_start = Some(clock_now());
        let mut mark = self.get_row_mark();
        mark.set(RowMark::OUTPUT_START);
        self.set_row_mark(mark);
    }

    /// Completes a block of shell integration, with its exit code and its duration
    /// in milliseconds as far as known.
    pub fn complete_block(&mut self, exit: Option<i32>, ms: Option<u32>)
        requires
            old(self)@.wf(),
        ensures
            final(self)@ == old(self)@.block_completed(exit, ms),
            final(self)@.wf(),
    {
        let mut mark = self.get_row_mark();
        mark.set(RowMark::BLOCK_END);
        mark.set_exit(exit);
        mark.set_duration(ms);
        self.set_row_mark(mark);
        self.pending_command_start = None;
        self.blocks_completed = self.blocks_completed.wrapping_add(1);
        self.last_block_exit = exit;
        self.last_block_duration = ms;
    }

    fn handle_osc_133(&mut self, params: &[Vec<u8>])
        requires
            old(self)@.wf(),
        ensures
            exists|t: std::time::Duration|
                final(self)@ == old(self)@.shell_marked(
                    byte_strings(params@),
                    #[trigger] recorded_millis(t),
                ),
            final(self)@.wf(),
    {
        let ghost p = byte_strings(params@);
        let ghost before = self@;
        let ghost mut clock: std::time::Duration = arbitrary();
        if self.alt.is_none() {
            match leading(params, 1) {
                Some(0x41) => {
                    self.start_prompt();
                },
                Some(0x43) => {
                    self.start_output();
                },
                Some(0x44) => {
                    let exit: Option<i32> = if params.len() > 2 {
                        parse_i32(params[2].as_slice())
                    } else {
                        None
                    };
                    let ms: Option<u32> = match &self.pending_command_start {
                        Some(start) => {
                            let elapsed: std::time::Duration = clock_elapsed(start);
                            proof {
                                clock = elapsed;
                            }
                            Some(clamped_millis(&elapsed))
                        },
                        None => None,
                    };
                    self.complete_block(exit, ms);
                },
                Some(0x42) => {
                    self.end_prompt();
                },
                _ => {},
            }
        }
        assert(self@ == before.shell_marked(p, recorded_millis(clock)));
    }

    fn ask_color(&mut self, params: &[Vec<u8>], query: ColorQuery)
        requires
            old(self)@.wf(),
        ensures
            final(self)@ == old(self)@.color_asked(byte_strings(params@), query),
            final(self)@.wf(),
    {
        if params.len() > 1 && says(&params[1], "?") {
            self.color_queries.push((self.replies.len(), query));
        }
    }

    /// Sets the clipboard to what a payload decoded to, unless that is too large.
    pub fn store_clipboard(&mut self, decoded: Option<Vec<u8>>)
        requires
            old(self)@.wf(),
        ensures
            final(self)@ == old(self)@.clipboard_stored(
                match decoded {
                    Some(bytes) => Some(bytes@),
                    None => None,
                },
            ),
            final(self)@.wf(),
    {
        let ghost before = self@;
        if let Some(bytes) = decoded {
            if bytes.len() <= OSC52_MAX_BYTES {
                self.clipboard_writes.push(bytes);
                assert(byte_strings(self.clipboard_writes@) =~= before.clipboard_writes.push(
                    bytes@,
                ));
            }
        }
    }

    fn handle_osc_52(&mut self, params: &[Vec<u8>])
        requires
            old(self)@.wf(),
        ensures
            final(self)@ == old(self)@.clipboard_set(byte_strings(params@)),
            final(self)@.wf(),
    {
        if params.len() <= 2 || says(&params[2], "?") {
            return;
        }
        let selection: u8 = match leading(params, 1) {
            Some(c) => c,
            None => 0x63,
        };
        if selection != 0x63 && selection != 0x73 {
            return;
        }
        let decoded = base64_decode(params[2].as_slice());
        self.store_clipboard(decoded);
    }

    /// Sets the hyperlink of new cells; an empty target ends it.
    pub fn set_hyperlink(&mut self, url: &str)
        requires
            old(self)@.wf(),
        ensures
            final(self)@ == old(self)@.linked(url@),
            final(self)@.wf(),
    {
        if url.is_empty() {
            self.cursor.hyperlink_id = None;
        } else {
            self.cursor.hyperlink_id = self.hyperlinks.intern(url);
        }
    }

    /// Shows a file image of the given size in pixels.
    pub fn show_file(&mut self, args: &str, b64: &str, size: Option<(u32, u32)>)
        requires
            old(self)@.wf(),
        ensures
            final(self)@ == old(self)@.file_shown(args@, b64@, size),
            final(self)@.wf(),
    {
        let known: (u32, u32) = match size {
            Some(s) => s,
            None => (0, 0),
        };
        self.show_image(
            ImageProtocol::Iterm2,
            ImageFormat::Png,
            known,
            b64.as_bytes(),
            Some(args),
        );
    }

    /// Takes in the body of OSC 1337.
    pub fn take_file(&mut self, body: &str)
        requires
            old(self)@.wf(),
        ensures
            final(self)@ == old(self)@.file_taken(body@),
            final(self)@.wf(),
    {
        if let Some((args, b64)) = parse_iterm_file(body) {
            if has_arg(args.as_bytes(), "inline=1".as_bytes()) {
                let size = iterm_dimensions(args, b64);
                self.show_file(args, b64, size);
            }
        }
    }

    fn handle_iterm(&mut self, params: &[Vec<u8>])
        requires
            old(self)@.wf(),
        ensures
            final(self)@ == (if old(self)@.alt is Some {
                old(self)@
            } else {
                old(self)@.file_taken(lossy_text(rejoined(byte_strings(params@), 1)))
            }),
            final(self)@.wf(),
    {
        if self.alt.is_some() {
            return;
        }
        let joined: Vec<u8> = rejoin(params);
        let body: String = text_of_bytes(joined.as_slice());
        self.take_file(body.as_str());
    }

    fn set_titles(&mut self, params: &[Vec<u8>], title: bool, icon: bool)
        requires
            old(self)@.wf(),
        ensures
            final(self)@ == (match field(byte_strings(params@), 1) {
                Some(s) => if title {
                    ScreenView { title: lossy_text(s), ..old(self)@ }
                } else if icon {
                    ScreenView { icon_title: lossy_text(s), ..old(self)@ }
                } else {
                    ScreenView { cwd: Some(lossy_text(s)), ..old(self)@ }
                },
                None => old(self)@,
            }),
            final(self)@.wf(),
    {
        if params.len() > 1 {
            let text: String = text_of_bytes(params[1].as_slice());
            if title {
                self.title = text;
            } else if icon {
                self.icon_title = text;
            } else {
                self.cwd = Some(text);
            }
        }
    }

    fn handle_osc_8(&mut self, params: &[Vec<u8>])
        requires
            old(self)@.wf(),
        ensures
            final(self)@ == old(self)@.linked(
                match field(byte_strings(params@), 2) {
                    Some(s) => lossy_text(s),
                    None => Seq::empty(),
                },
            ),
            final(self)@.wf(),
    {
        let url: String = if params.len() > 2 {
            text_of_bytes(params[2].as_slice())
        } else {
            String::new()
        };
        self.set_hyperlink(url.as_str());
    }

    /// Executes an operating system command. How long a command ran is read from the
    /// clock; it is recorded in milliseconds.
    pub fn handle_osc(&mut self, params: &[Vec<u8>])
        requires
            old(self)@.wf(),
        ensures
            exists|t: std::time::Duration|
                final(self)@ == old(self)@.osc(
                    byte_strings(params@),
                    #[trigger] recorded_millis(t),
                ),
            final(self)@.wf(),
    {
        reveal(ScreenView::osc);
        let ghost p = byte_strings(params@);
        let ghost before = self@;
        let ghost mut clock: std::time::Duration = arbitrary();
        if params.len() == 0 {
            assert(self@ == before.osc(p, recorded_millis(clock)));
            return;
        }
        let cmd: &Vec<u8> = &params[0];
        assert(cmd@ == p[0]);
        if says(cmd, "0") || says(cmd, "2") {
            self.set_titles(params, true, false);
        } else if says(cmd, "1") {
            self.set_titles(params, false, true);
        } else if says(cmd, "7") {
            self.set_titles(params, false, false);
        } else if says(cmd, "8") {
            self.handle_osc_8(params);
        } else if says(cmd, "10") {
            self.ask_color(params, ColorQuery::Foreground);
        } else if says(cmd, "11") {
            self.ask_color(params, ColorQuery::Background);
        } else if says(cmd, "12") {
            self.ask_color(params, ColorQuery::Cursor);
        } else if says(cmd, "133") {
            self.handle_osc_133(params);
            proof {
                clock = choose|t: std::time::Duration|
                    self@ == before.shell_marked(p, #[trigger] recorded_millis(t));
            }
        } else if says(cmd, "52") {
            self.handle_osc_52(params);
        } else if says(cmd, "1337") {
            self.handle_iterm(params);
        }
        assert(self@ == before.osc(p, recorded_millis(clock)));
    }

    fn report_capability(&mut self, name: &Vec<u8>)
        requires
            old(self)@.wf(),
        ensures
            final(self)@ == (if valid_utf8(name@) {
                old(self)@.replied(capability_reply(name@, old(self)@.term))
            } else {
                old(self)@
            }),
            final(self)@.wf(),
    {
        let text: &str = match utf8_text(name.as_slice()) {
            Some(text) => text,
            None => {
                return;
            },
        };
        let hex: String = hex_encode(name.as_slice());
        let mut reply: Vec<u8> = Vec::new();
        let answer: Capability = lookup(text, self.term.as_str());
        match answer {
            Capability::Boolean => {
                push_text(&mut reply, "\x1bP1+r");
                push_text(&mut reply, hex.as_str());
            },
            Capability::Num(n) => {
                let mut digits: Vec<u8> = Vec::new();
                push_number(&mut digits, n as u64);
                assert(digits@ =~= d(n as int));
                let value: String = hex_encode(digits.as_slice());
                push_text(&mut reply, "\x1bP1+r");
                push_text(&mut reply, hex.as_str());
                push_text(&mut reply, "=");
                push_text(&mut reply, value.as_str());
            },
            Capability::Str(s) => {
                let value: String = hex_encode(s.as_str().as_bytes());
                push_text(&mut reply, "\x1bP1+r");
                push_text(&mut reply, hex.as_str());
                push_text(&mut reply, "=");
                push_text(&mut reply, value.as_str());
            },
            Capability::Unsupported => {
                push_text(&mut reply, "\x1bP0+r");
                push_text(&mut reply, hex.as_str());
            },
        }
        push_text(&mut reply, "\x1b\\");
        assert(reply@ =~= capability_reply(name@, self@.term));
        self.push_reply(reply);
    }

    fn xtgettcap(&mut self, payload: &[u8])
        requires
            old(self)@.wf(),
        ensures
            final(self)@ == (if valid_utf8(payload@) {
                old(self)@.capabilities_reported(payload@)
            } else {
                old(self)@
            }),
            final(self)@.wf(),
    {
        if utf8_text(payload).is_none() {
            return;
        }
        let ghost before = self@;
        let mut rest: &[u8] = payload;
        loop
            invariant
                before.capabilities_reported(payload@) == self@.capabilities_reported(rest@),
                self@.wf(),
                before == old(self)@,
                valid_utf8(payload@),
            decreases rest@.len(),
        {
            let (hexname, tail) = cut(rest, 0x3b);
            if let Some(name) = hex_decode(hexname) {
                if name.len() > 0 {
                    self.report_capability(&name);
                }
            }
            match tail {
                Some(t) => {
                    proof {
                        crate::scan::first_bounds(rest@, 0x3b);
                    }
                    rest = t;
                },
                None => {
                    return;
                },
            }
        }
    }

    /// Executes a device control string.
    pub fn handle_dcs(
        &mut self,
        intermediates: &[u8],
        action: u8,
        params: &[Vec<u16>],
        payload: &[u8],
    )
        requires
            old(self)@.wf(),
        ensures
            final(self)@ == old(self)@.dcs(
                intermediates@,
                action,
                super::sgr::groups(params@),
                payload@,
            ),
            final(self)@.wf(),
    {
        reveal(ScreenView::dcs);
        if intermediates.len() > 0 && intermediates[0] == 0x2b && action == 0x71 {
            self.xtgettcap(payload);
        } else if action == 0x71 && intermediates.len() == 0 {
            self.handle_sixel(params, payload);
        }
    }
}

} // verus!
