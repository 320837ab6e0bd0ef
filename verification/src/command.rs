//! The commands of the Kitty graphics protocol.
use crate::scan::{cut, parse_i32, parse_u16, parse_u32, strip_prefix, strip_suffix};
use vstd::prelude::*;
use vstd::slice::slice_to_vec;

verus! {

/// A graphics command: its keys and its payload.
///
/// Some keys mean different things for different actions: `r` and `c` are the size
/// of a placement or the numbers of frames, `s` and `v` a size in pixels or the
/// state of an animation, `z` a height in the stack or a delay.
#[derive(Debug, Clone)]
pub struct GraphicsCommand {
    /// `a`: what to do. Transmit, if absent.
    pub action: u8,
    /// `i`
    pub id: Option<u32>,
    /// `p`
    pub placement_id: Option<u32>,
    /// `f`
    pub format: Option<u32>,
    /// `s`
    pub width: Option<u32>,
    /// `v`
    pub height: Option<u32>,
    /// `r`
    pub rows: Option<u16>,
    /// `c`
    pub cols: Option<u16>,
    /// `m=1`: more chunks follow.
    pub more: bool,
    /// Whether there was an `m` at all, with any value. Every chunk after the first
    /// has one.
    pub saw_m: bool,
    /// `d`
    pub delete_target: Option<u8>,
    /// `U=1`: place the image by placeholder characters.
    pub unicode: bool,
    /// `z`
    pub z: Option<i32>,
    /// `x`
    pub frame_x: Option<u32>,
    /// `y`
    pub frame_y: Option<u32>,
    /// `X=1`: replace the pixels below a frame.
    pub compose_overwrite: bool,
    /// `Y`
    pub bg_color: Option<u32>,
    /// The data, a chunk of base64.
    pub payload: Vec<u8>,
}

/// The contents of a graphics command.
#[verifier::ext_equal]
pub ghost struct CommandView {
    pub action: u8,
    pub id: Option<u32>,
    pub placement_id: Option<u32>,
    pub format: Option<u32>,
    pub width: Option<u32>,
    pub height: Option<u32>,
    pub rows: Option<u16>,
    pub cols: Option<u16>,
    pub more: bool,
    pub saw_m: bool,
    pub delete_target: Option<u8>,
    pub unicode: bool,
    pub z: Option<i32>,
    pub frame_x: Option<u32>,
    pub frame_y: Option<u32>,
    pub compose_overwrite: bool,
    pub bg_color: Option<u32>,
    pub payload: Seq<u8>,
}

impl View for GraphicsCommand {
    type V = CommandView;

    open spec fn view(&self) -> CommandView {
        CommandView {
            action: self.action,
            id: self.id,
            placement_id: self.placement_id,
            format: self.format,
            width: self.width,
            height: self.height,
            rows: self.rows,
            cols: self.cols,
            more: self.more,
            saw_m: self.saw_m,
            delete_target: self.delete_target,
            unicode: self.unicode,
            z: self.z,
            frame_x: self.frame_x,
            frame_y: self.frame_y,
            compose_overwrite: self.compose_overwrite,
            bg_color: self.bg_color,
            payload: self.payload@,
        }
    }
}

/// The `u32` that a value writes.
pub open spec fn as_u32(v: Seq<u8>) -> Option<u32> {
    match crate::scan::unsigned(v, u32::MAX as nat) {
        Some(n) => Some(n as u32),
        None => None,
    }
}

/// The `u16` that a value writes.
pub open spec fn as_u16(v: Seq<u8>) -> Option<u16> {
    match crate::scan::unsigned(v, u16::MAX as nat) {
        Some(n) => Some(n as u16),
        None => None,
    }
}

/// The `i32` that a value writes.
pub open spec fn as_i32(v: Seq<u8>) -> Option<i32> {
    match crate::scan::signed(v) {
        Some(n) => Some(n as i32),
        None => None,
    }
}

/// The first byte of a value.
pub open spec fn first_byte(v: Seq<u8>) -> Option<u8> {
    if v.len() > 0 {
        Some(v[0])
    } else {
        None
    }
}

/// Whether a value is the digit one.
pub open spec fn is_one(v: Seq<u8>) -> bool {
    v == seq![0x31u8]
}

impl CommandView {
    /// A command without keys: it transmits `payload`.
    pub open spec fn bare(payload: Seq<u8>) -> CommandView {
        CommandView {
            action: 0x74,
            id: None,
            placement_id: None,
            format: None,
            width: None,
            height: None,
            rows: None,
            cols: None,
            more: false,
            saw_m: false,
            delete_target: None,
            unicode: false,
            z: None,
            frame_x: None,
            frame_y: None,
            compose_overwrite: false,
            bg_color: None,
            payload,
        }
    }

    /// The command with the key `k` set to the value `v`. A value that does not fit
    /// its key removes what was set; an unknown key is ignored.
    pub open spec fn with_key(self, k: u8, v: Seq<u8>) -> CommandView {
        if k == 0x61 {
            CommandView {
                action: match first_byte(v) {
                    Some(b) => b,
                    None => 0x74,
                },
                ..self
            }
        } else if k == 0x69 {
            CommandView { id: as_u32(v), ..self }
        } else if k == 0x70 {
            CommandView { placement_id: as_u32(v), ..self }
        } else if k == 0x66 {
            CommandView { format: as_u32(v), ..self }
        } else if k == 0x73 {
            CommandView { width: as_u32(v), ..self }
        } else if k == 0x76 {
            CommandView { height: as_u32(v), ..self }
        } else if k == 0x72 {
            CommandView { rows: as_u16(v), ..self }
        } else if k == 0x63 {
            CommandView { cols: as_u16(v), ..self }
        } else if k == 0x7a {
            CommandView { z: as_i32(v), ..self }
        } else if k == 0x6d {
            CommandView { saw_m: true, more: is_one(v), ..self }
        } else if k == 0x64 {
            CommandView { delete_target: first_byte(v), ..self }
        } else if k == 0x55 {
            CommandView { unicode: is_one(v), ..self }
        } else if k == 0x78 {
            CommandView { frame_x: as_u32(v), ..self }
        } else if k == 0x79 {
            CommandView { frame_y: as_u32(v), ..self }
        } else if k == 0x58 {
            CommandView { compose_overwrite: is_one(v), ..self }
        } else if k == 0x59 {
            CommandView { bg_color: as_u32(v), ..self }
        } else {
            self
        }
    }

    /// The command with one key and value, as they are written. Keys are single
    /// letters; anything else is ignored.
    pub open spec fn with_pair(self, kv: Seq<u8>) -> CommandView {
        match crate::scan::after(kv, 0x3d) {
            Some(v) => if crate::scan::before(kv, 0x3d).len() == 1 {
                self.with_key(kv[0], v)
            } else {
                self
            },
            None => self,
        }
    }

    /// The command with a list of keys and values, separated by commas.
    pub open spec fn with_pairs(self, params: Seq<u8>) -> CommandView
        decreases params.len(),
    {
        let next = self.with_pair(crate::scan::before(params, 0x2c));
        match crate::scan::after(params, 0x2c) {
            Some(rest) => if rest.len() < params.len() {
                next.with_pairs(rest)
            } else {
                next
            },
            None => next,
        }
    }
}

/// What stands between the frame of an application command and its end, which may
/// be missing.
pub open spec fn unframed(framed: Seq<u8>) -> Option<Seq<u8>> {
    if crate::scan::starts_with(framed, seq![0x1bu8, 0x5fu8]) {
        let inner = framed.skip(2);
        if crate::scan::ends_with(inner, seq![0x1bu8, 0x5cu8]) {
            Some(inner.take(inner.len() - 2))
        } else {
            Some(inner)
        }
    } else {
        None
    }
}

/// The graphics command in a framed application command: `G`, the keys, and the
/// payload behind a semicolon.
pub open spec fn command_of(framed: Seq<u8>) -> Option<CommandView> {
    match unframed(framed) {
        Some(inner) => if inner.len() > 0 && inner[0] == 0x47 {
            let body = inner.skip(1);
            let payload = match crate::scan::after(body, 0x3b) {
                Some(p) => p,
                None => Seq::empty(),
            };
            Some(CommandView::bare(payload).with_pairs(crate::scan::before(body, 0x3b)))
        } else {
            None
        },
        None => None,
    }
}

fn leading(v: &[u8]) -> (r: Option<u8>)
    ensures
        r == first_byte(v@),
{
    if v.len() > 0 {
        Some(v[0])
    } else {
        None
    }
}

fn says_one(v: &[u8]) -> (r: bool)
    ensures
        r == is_one(v@),
{
    if v.len() == 1 && v[0] == 0x31 {
        assert(v@ =~= seq![0x31u8]);
        true
    } else {
        false
    }
}

impl GraphicsCommand {
    fn bare(payload: Vec<u8>) -> (cmd: GraphicsCommand)
        ensures
            cmd@ == CommandView::bare(payload@),
    {
        GraphicsCommand {
            action: 0x74,
            id: None,
            placement_id: None,
            format: None,
            width: None,
            height: None,
            rows: None,
            cols: None,
            more: false,
            saw_m: false,
            delete_target: None,
            unicode: false,
            z: None,
            frame_x: None,
            frame_y: None,
            compose_overwrite: false,
            bg_color: None,
            payload,
        }
    }

    fn set_pair(&mut self, kv: &[u8])
        ensures
            final(self)@ == old(self)@.with_pair(kv@),
    {
        let (k, value) = cut(kv, 0x3d);
        let v: &[u8] = match value {
            Some(v) => v,
            None => {
                return;
            },
        };
        if k.len() != 1 {
            return;
        }
        proof {
            crate::scan::first_bounds(kv@, 0x3d);
            assert(k@[0] == kv@[0]);
        }
        match k[0] {
            0x61 => {
                self.action = match leading(v) {
                    Some(b) => b,
                    None => 0x74,
                };
            },
            0x69 => {
                self.id = parse_u32(v);
            },
            0x70 => {
                self.placement_id = parse_u32(v);
            },
            0x66 => {
                self.format = parse_u32(v);
            },
            0x73 => {
                self.width = parse_u32(v);
            },
            0x76 => {
                self.height = parse_u32(v);
            },
            0x72 => {
                self.rows = parse_u16(v);
            },
            0x63 => {
                self.cols = parse_u16(v);
            },
            0x7a => {
                self.z = parse_i32(v);
            },
            0x6d => {
                self.saw_m = true;
                self.more = says_one(v);
            },
            0x64 => {
                self.delete_target = leading(v);
            },
            0x55 => {
                self.unicode = says_one(v);
            },
            0x78 => {
                self.frame_x = parse_u32(v);
            },
            0x79 => {
                self.frame_y = parse_u32(v);
            },
            0x58 => {
                self.compose_overwrite = says_one(v);
            },
            0x59 => {
                self.bg_color = parse_u32(v);
            },
            _ => {},
        }
    }
}

impl Default for GraphicsCommand {
    fn default() -> (cmd: GraphicsCommand)
        ensures
            cmd@ == (CommandView { action: 0, ..CommandView::bare(Seq::empty()) }),
    {
        let mut cmd = GraphicsCommand::bare(Vec::new());
        cmd.action = 0;
        cmd
    }
}

/// Reads a framed application command. `None` if it is no graphics command.
pub fn parse_command(framed: &[u8]) -> (r: Option<GraphicsCommand>)
    ensures
        match r {
            Some(cmd) => command_of(framed@) == Some(cmd@),
            None => command_of(framed@) is None,
        },
{
    let open: [u8; 2] = [0x1b, 0x5f];
    let close: [u8; 2] = [0x1b, 0x5c];
    let tag: [u8; 1] = [0x47];
    assert(open@ =~= seq![0x1bu8, 0x5fu8]);
    assert(close@ =~= seq![0x1bu8, 0x5cu8]);
    let rest: &[u8] = match strip_prefix(framed, &open) {
        Some(rest) => rest,
        None => {
            return None;
        },
    };
    let inner: &[u8] = match strip_suffix(rest, &close) {
        Some(inner) => inner,
        None => rest,
    };
    assert(inner@.len() > 0 ==> inner@.take(1)[0] == inner@[0]);
    assert(inner@.len() > 0 && inner@[0] == 0x47 ==> inner@.take(1) =~= tag@);
    let body: &[u8] = match strip_prefix(inner, &tag) {
        Some(body) => body,
        None => {
            return None;
        },
    };
    assert(inner@.take(1)[0] == tag@[0]);
    let (params, data) = cut(body, 0x3b);
    let payload: Vec<u8> = match data {
        Some(p) => slice_to_vec(p),
        None => Vec::new(),
    };
    let mut cmd: GraphicsCommand = GraphicsCommand::bare(payload);
    let ghost start = cmd@;
    let mut list: &[u8] = params;
    loop
        invariant
            start.with_pairs(params@) == cmd@.with_pairs(list@),
            command_of(framed@) == Some(start.with_pairs(params@)),
        decreases list@.len(),
    {
        let (kv, tail) = cut(list, 0x2c);
        cmd.set_pair(kv);
        match tail {
            Some(t) => {
                proof {
                    crate::scan::first_bounds(list@, 0x2c);
                }
                list = t;
            },
            None => {
                return Some(cmd);
            },
        }
    }
}

} // verus!
