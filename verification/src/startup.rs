//! Starting the daemon: device specs, settings, listeners, and the banner.

use vstd::prelude::*;
use vstd::slice::*;
use vstd::string::*;

use crate::ids::{fresh_hex_tag, is_lower_hex};
use crate::serial::{DataBits, FlowControl, Parity, SerialConfig, StopBits};
use crate::session::SessionManager;
use crate::state::{is_device_at, ConsolePersonality, DaemonState, Device};
use crate::text::{
    all_chars, cat3, cat4, chars_eq, chars_of, dec_u64, decimal, lemma_find_char,
    lemma_find_char_at, opt_view, parse_unsigned, quoted, quoted_text, split, split_chars,
    split_once, split_once_chars, starts_with, str_eq, string_of, trim, trim_chars, unsigned,
};

verus! {

// ---------- Device ids ----------

/// Where the last component of a path starts: after its last slash.
pub open spec fn last_component(s: Seq<char>) -> nat
    decreases s.len(),
{
    if s.len() == 0 || s.last() == '/' {
        s.len()
    } else {
        last_component(s.drop_last())
    }
}

pub proof fn lemma_last_component(s: Seq<char>)
    ensures
        last_component(s) <= s.len(),
    decreases s.len(),
{
    if s.len() > 0 && s.last() != '/' {
        lemma_last_component(s.drop_last());
    }
}

/// The name that a path ends in, past trailing slashes and `.` components;
/// none if it ends in `..` or has no name.
pub open spec fn file_name(s: Seq<char>) -> Option<Seq<char>>
    decreases s.len(),
    via file_name_decreases
{
    let i = last_component(s) as int;
    let c = s.skip(i);
    if c == seq!['.', '.'] {
        None
    } else if c.len() > 0 && c != seq!['.'] {
        Some(c)
    } else if i == 0 {
        None
    } else {
        file_name(s.take(i - 1))
    }
}

#[via_fn]
proof fn file_name_decreases(s: Seq<char>) {
    lemma_last_component(s);
}

fn file_name_of(path: &[char]) -> (r: Option<Vec<char>>)
    ensures
        match file_name(path@) {
            Some(n) => r matches Some(v) && v@ == n,
            None => r is None,
        },
{
    let mut end: usize = path.len();
    assert(path@.take(end as int) =~= path@);
    loop
        invariant
            end <= path@.len(),
            file_name(path@.take(end as int)) == file_name(path@),
        decreases end,
    {
        let ghost s = path@.take(end as int);
        let mut i: usize = end;
        assert(s.take(i as int) =~= s);
        while i > 0 && path[i - 1] != '/'
            invariant
                i <= end <= path@.len(),
                s == path@.take(end as int),
                last_component(s.take(i as int)) == last_component(s),
            decreases i,
        {
            assert(s.take(i as int).last() == path@[i - 1]);
            assert(s.take(i as int).drop_last() =~= s.take(i - 1));
            i = i - 1;
        }
        assert(i > 0 ==> s.take(i as int).last() == path@[i - 1]);
        assert(last_component(s) == i);
        let c = slice_subrange(path, i, end);
        assert(c@ =~= s.skip(i as int));
        let up: [char; 2] = ['.', '.'];
        let here: [char; 1] = ['.'];
        assert(up@ =~= seq!['.', '.']);
        assert(here@ =~= seq!['.']);
        if chars_eq(c, &up) {
            return None;
        }
        if c.len() > 0 && !chars_eq(c, &here) {
            return Some(slice_to_vec(c));
        }
        if i == 0 {
            return None;
        }
        assert(s.take(i - 1) =~= path@.take(i - 1));
        end = i - 1;
    }
}

/// `s` without a leading `prefix`, if it has that.
pub open spec fn strip_prefix(s: Seq<char>, prefix: Seq<char>) -> Option<Seq<char>> {
    if prefix.len() <= s.len() && s.take(prefix.len() as int) == prefix {
        Some(s.skip(prefix.len() as int))
    } else {
        None
    }
}

pub fn strip_prefix_chars(s: &[char], prefix: &str) -> (r: Option<Vec<char>>)
    ensures
        match strip_prefix(s@, prefix@) {
            Some(t) => r matches Some(v) && v@ == t,
            None => r is None,
        },
{
    let p = chars_of(prefix);
    if p.len() > s.len() {
        return None;
    }
    let front = slice_subrange(s, 0, p.len());
    assert(front@ =~= s@.take(prefix@.len() as int));
    if chars_eq(front, p.as_slice()) {
        let rest = slice_to_vec(slice_subrange(s, p.len(), s.len()));
        assert(rest@ =~= s@.skip(prefix@.len() as int));
        Some(rest)
    } else {
        None
    }
}

/// The id of a device that was given by its path alone: the path's last name,
/// without a leading `tty.` or `cu.`.
pub open spec fn derived_id(path: Seq<char>) -> Seq<char> {
    let base = match file_name(path) {
        Some(n) => n,
        None => path,
    };
    match strip_prefix(base, "tty."@) {
        Some(rest) => rest,
        None => match strip_prefix(base, "cu."@) {
            Some(rest) => rest,
            None => base,
        },
    }
}

/// Derives a short, stable id for a serial device from its OS path.
pub fn derive_device_id(path: &str) -> (id: String)
    ensures
        id@ == derived_id(path@),
{
    let p = chars_of(path);
    let base = match file_name_of(p.as_slice()) {
        Some(n) => n,
        None => p,
    };
    match strip_prefix_chars(base.as_slice(), "tty.") {
        Some(rest) => string_of(rest.as_slice()),
        None => match strip_prefix_chars(base.as_slice(), "cu.") {
            Some(rest) => string_of(rest.as_slice()),
            None => string_of(base.as_slice()),
        },
    }
}

/// Default symlink path for a device id when `pty` is given without a value.
pub fn default_link(id: &str) -> (link: String)
    ensures
        link@ == "/tmp/tether-"@ + id@ + ".pty"@,
{
    cat3("/tmp/tether-", id, ".pty")
}

// ---------- Errors ----------

/// Why a device or a flag was not understood.
#[derive(Debug)]
pub enum SpecError {
    /// No id before the `=` of a spec.
    EmptyId(String),
    /// No path after the `=` of a spec.
    EmptyPath(String),
    /// A field that is neither `key=value` nor a known word.
    NotKeyValue(String),
    BadBaud(String),
    BadDataBits(String),
    BadStopBits(String),
    BadShell(String),
    BadNewline(String),
    /// A key that no setting has, in a spec.
    UnknownKey(String, String),
    /// A number of data bits that no port has, for a device.
    NoSuchDataBits(u8, String),
    NoSuchParity(String, String),
    NoSuchStopBits(u8, String),
    NoSuchFlow(String, String),
    /// The same for the global flags.
    DefaultDataBits(u8),
    DefaultParity(String),
    DefaultStopBits(u8),
    DefaultFlow(String),
    NoDevice,
    DuplicateId(String),
}

/// What an error is about.
pub enum SpecErrorView {
    EmptyId(Seq<char>),
    EmptyPath(Seq<char>),
    NotKeyValue(Seq<char>),
    BadBaud(Seq<char>),
    BadDataBits(Seq<char>),
    BadStopBits(Seq<char>),
    BadShell(Seq<char>),
    BadNewline(Seq<char>),
    UnknownKey(Seq<char>, Seq<char>),
    NoSuchDataBits(u8, Seq<char>),
    NoSuchParity(Seq<char>, Seq<char>),
    NoSuchStopBits(u8, Seq<char>),
    NoSuchFlow(Seq<char>, Seq<char>),
    DefaultDataBits(u8),
    DefaultParity(Seq<char>),
    DefaultStopBits(u8),
    DefaultFlow(Seq<char>),
    NoDevice,
    DuplicateId(Seq<char>),
}

impl View for SpecError {
    type V = SpecErrorView;

    open spec fn view(&self) -> SpecErrorView {
        match self {
            SpecError::EmptyId(s) => SpecErrorView::EmptyId(s@),
            SpecError::EmptyPath(s) => SpecErrorView::EmptyPath(s@),
            SpecError::NotKeyValue(s) => SpecErrorView::NotKeyValue(s@),
            SpecError::BadBaud(s) => SpecErrorView::BadBaud(s@),
            SpecError::BadDataBits(s) => SpecErrorView::BadDataBits(s@),
            SpecError::BadStopBits(s) => SpecErrorView::BadStopBits(s@),
            SpecError::BadShell(s) => SpecErrorView::BadShell(s@),
            SpecError::BadNewline(s) => SpecErrorView::BadNewline(s@),
            SpecError::UnknownKey(k, s) => SpecErrorView::UnknownKey(k@, s@),
            SpecError::NoSuchDataBits(n, id) => SpecErrorView::NoSuchDataBits(*n, id@),
            SpecError::NoSuchParity(s, id) => SpecErrorView::NoSuchParity(s@, id@),
            SpecError::NoSuchStopBits(n, id) => SpecErrorView::NoSuchStopBits(*n, id@),
            SpecError::NoSuchFlow(s, id) => SpecErrorView::NoSuchFlow(s@, id@),
            SpecError::DefaultDataBits(n) => SpecErrorView::DefaultDataBits(*n),
            SpecError::DefaultParity(s) => SpecErrorView::DefaultParity(s@),
            SpecError::DefaultStopBits(n) => SpecErrorView::DefaultStopBits(*n),
            SpecError::DefaultFlow(s) => SpecErrorView::DefaultFlow(s@),
            SpecError::NoDevice => SpecErrorView::NoDevice,
            SpecError::DuplicateId(s) => SpecErrorView::DuplicateId(s@),
        }
    }
}

impl SpecErrorView {
    /// The words before the first thing that is shown, and those after it.
    pub open spec fn words(self) -> (Seq<char>, Seq<char>) {
        match self {
            SpecErrorView::EmptyId(_) => ("empty id in -D spec "@, ""@),
            SpecErrorView::EmptyPath(_) => ("empty path in -D spec "@, ""@),
            SpecErrorView::NotKeyValue(_) => ("expected key=value, got "@, " in -D spec"@),
            SpecErrorView::BadBaud(_) => ("invalid baud "@, " in -D spec"@),
            SpecErrorView::BadDataBits(_) => ("invalid data-bits "@, ""@),
            SpecErrorView::BadStopBits(_) => ("invalid stop-bits "@, ""@),
            SpecErrorView::BadShell(_) => (
                "invalid shell "@,
                " in -D spec (expected posix, uboot or none)"@,
            ),
            SpecErrorView::BadNewline(_) => (
                "invalid newline "@,
                " in -D spec (expected lf, cr, crlf or none)"@,
            ),
            SpecErrorView::UnknownKey(_, _) => ("unknown key "@, " in -D spec "@),
            SpecErrorView::NoSuchDataBits(_, _) => ("invalid data-bits "@, " in -D "@),
            SpecErrorView::NoSuchParity(_, _) => ("invalid parity "@, " in -D "@),
            SpecErrorView::NoSuchStopBits(_, _) => ("invalid stop-bits "@, " in -D "@),
            SpecErrorView::NoSuchFlow(_, _) => ("invalid flow "@, " in -D "@),
            SpecErrorView::DefaultDataBits(_) => ("invalid --data-bits "@, ""@),
            SpecErrorView::DefaultParity(_) => ("invalid --parity "@, ""@),
            SpecErrorView::DefaultStopBits(_) => ("invalid --stop-bits "@, ""@),
            SpecErrorView::DefaultFlow(_) => ("invalid --flow-control "@, ""@),
            SpecErrorView::NoDevice => ("at least one -D / --device must be given"@, ""@),
            SpecErrorView::DuplicateId(_) => (
                "duplicate device id "@,
                " — use `id=path` form to disambiguate"@,
            ),
        }
    }

    /// The first thing that is shown: a number as it is, a text in quotes.
    pub open spec fn first(self) -> Seq<char> {
        match self {
            SpecErrorView::EmptyId(s) => quoted_text(s),
            SpecErrorView::EmptyPath(s) => quoted_text(s),
            SpecErrorView::NotKeyValue(s) => quoted_text(s),
            SpecErrorView::BadBaud(s) => quoted_text(s),
            SpecErrorView::BadDataBits(s) => quoted_text(s),
            SpecErrorView::BadStopBits(s) => quoted_text(s),
            SpecErrorView::BadShell(s) => quoted_text(s),
            SpecErrorView::BadNewline(s) => quoted_text(s),
            SpecErrorView::UnknownKey(s, _) => quoted_text(s),
            SpecErrorView::NoSuchDataBits(n, _) => decimal(n as nat),
            SpecErrorView::NoSuchParity(s, _) => quoted_text(s),
            SpecErrorView::NoSuchStopBits(n, _) => decimal(n as nat),
            SpecErrorView::NoSuchFlow(s, _) => quoted_text(s),
            SpecErrorView::DefaultDataBits(n) => decimal(n as nat),
            SpecErrorView::DefaultParity(s) => quoted_text(s),
            SpecErrorView::DefaultStopBits(n) => decimal(n as nat),
            SpecErrorView::DefaultFlow(s) => quoted_text(s),
            SpecErrorView::NoDevice => ""@,
            SpecErrorView::DuplicateId(s) => quoted_text(s),
        }
    }

    /// The second thing that is shown, if any.
    pub open spec fn second(self) -> Seq<char> {
        match self {
            SpecErrorView::UnknownKey(_, s) => quoted_text(s),
            SpecErrorView::NoSuchDataBits(_, id) => quoted_text(id),
            SpecErrorView::NoSuchParity(_, id) => quoted_text(id),
            SpecErrorView::NoSuchStopBits(_, id) => quoted_text(id),
            SpecErrorView::NoSuchFlow(_, id) => quoted_text(id),
            _ => ""@,
        }
    }
}

impl SpecError {
    /// The message, given what it shows.
    pub fn message_with(&self, first: &str, second: &str) -> (s: String)
        ensures
            s@ == self@.words().0 + first@ + self@.words().1 + second@,
    {
        let (before, after) = match self {
            SpecError::EmptyId(_) => ("empty id in -D spec ", ""),
            SpecError::EmptyPath(_) => ("empty path in -D spec ", ""),
            SpecError::NotKeyValue(_) => ("expected key=value, got ", " in -D spec"),
            SpecError::BadBaud(_) => ("invalid baud ", " in -D spec"),
            SpecError::BadDataBits(_) => ("invalid data-bits ", ""),
            SpecError::BadStopBits(_) => ("invalid stop-bits ", ""),
            SpecError::BadShell(_) => (
                "invalid shell ",
                " in -D spec (expected posix, uboot or none)",
            ),
            SpecError::BadNewline(_) => (
                "invalid newline ",
                " in -D spec (expected lf, cr, crlf or none)",
            ),
            SpecError::UnknownKey(_, _) => ("unknown key ", " in -D spec "),
            SpecError::NoSuchDataBits(_, _) => ("invalid data-bits ", " in -D "),
            SpecError::NoSuchParity(_, _) => ("invalid parity ", " in -D "),
            SpecError::NoSuchStopBits(_, _) => ("invalid stop-bits ", " in -D "),
            SpecError::NoSuchFlow(_, _) => ("invalid flow ", " in -D "),
            SpecError::DefaultDataBits(_) => ("invalid --data-bits ", ""),
            SpecError::DefaultParity(_) => ("invalid --parity ", ""),
            SpecError::DefaultStopBits(_) => ("invalid --stop-bits ", ""),
            SpecError::DefaultFlow(_) => ("invalid --flow-control ", ""),
            SpecError::NoDevice => ("at least one -D / --device must be given", ""),
            SpecError::DuplicateId(_) => (
                "duplicate device id ",
                " — use `id=path` form to disambiguate",
            ),
        };
        cat4(before, first, after, second)
    }

    /// The message for the operator.
    pub fn message(&self) -> (s: String)
        ensures
            s@ == self@.words().0 + self@.first() + self@.words().1 + self@.second(),
    {
        let first = match self {
            SpecError::EmptyId(s) => quoted(s.as_str()),
            SpecError::EmptyPath(s) => quoted(s.as_str()),
            SpecError::NotKeyValue(s) => quoted(s.as_str()),
            SpecError::BadBaud(s) => quoted(s.as_str()),
            SpecError::BadDataBits(s) => quoted(s.as_str()),
            SpecError::BadStopBits(s) => quoted(s.as_str()),
            SpecError::BadShell(s) => quoted(s.as_str()),
            SpecError::BadNewline(s) => quoted(s.as_str()),
            SpecError::UnknownKey(s, _) => quoted(s.as_str()),
            SpecError::NoSuchDataBits(n, _) => dec_u64(*n as u64),
            SpecError::NoSuchParity(s, _) => quoted(s.as_str()),
            SpecError::NoSuchStopBits(n, _) => dec_u64(*n as u64),
            SpecError::NoSuchFlow(s, _) => quoted(s.as_str()),
            SpecError::DefaultDataBits(n) => dec_u64(*n as u64),
            SpecError::DefaultParity(s) => quoted(s.as_str()),
            SpecError::DefaultStopBits(n) => dec_u64(*n as u64),
            SpecError::DefaultFlow(s) => quoted(s.as_str()),
            SpecError::NoDevice => "".to_owned(),
            SpecError::DuplicateId(s) => quoted(s.as_str()),
        };
        let second = match self {
            SpecError::UnknownKey(_, s) => quoted(s.as_str()),
            SpecError::NoSuchDataBits(_, id) => quoted(id.as_str()),
            SpecError::NoSuchParity(_, id) => quoted(id.as_str()),
            SpecError::NoSuchStopBits(_, id) => quoted(id.as_str()),
            SpecError::NoSuchFlow(_, id) => quoted(id.as_str()),
            _ => "".to_owned(),
        };
        self.message_with(first.as_str(), second.as_str())
    }
}

// ---------- Device specs ----------

/// Parsed `-D` spec — id, OS path, any per-device overrides for the global
/// `--baud` / `--parity` / etc. flags, the virtual port's link, and the
/// console personality.
#[derive(Debug)]
pub struct DeviceSpec {
    pub id: String,
    pub path: String,
    pub baud: Option<u32>,
    pub data_bits: Option<u8>,
    pub parity: Option<String>,
    pub stop_bits: Option<u8>,
    pub flow_control: Option<String>,
    pub pty: Option<String>,
    pub console: ConsolePersonality,
}

/// What a device spec says.
pub struct SpecView {
    pub id: Seq<char>,
    pub path: Seq<char>,
    pub baud: Option<u32>,
    pub data_bits: Option<u8>,
    pub parity: Option<Seq<char>>,
    pub stop_bits: Option<u8>,
    pub flow_control: Option<Seq<char>>,
    pub pty: Option<Seq<char>>,
    pub shell: Seq<char>,
    pub prompt: Option<Seq<char>>,
    pub newline: Option<Seq<char>>,
}

impl View for DeviceSpec {
    type V = SpecView;

    open spec fn view(&self) -> SpecView {
        SpecView {
            id: self.id@,
            path: self.path@,
            baud: self.baud,
            data_bits: self.data_bits,
            parity: opt_view(self.parity),
            stop_bits: self.stop_bits,
            flow_control: opt_view(self.flow_control),
            pty: opt_view(self.pty),
            shell: self.console.shell@,
            prompt: opt_view(self.console.prompt),
            newline: opt_view(self.console.newline),
        }
    }
}

pub open spec fn is_shell(s: Seq<char>) -> bool {
    s == "posix"@ || s == "uboot"@ || s == "none"@
}

pub open spec fn is_newline_name(s: Seq<char>) -> bool {
    s == "lf"@ || s == "cr"@ || s == "crlf"@ || s == "none"@
}

/// The spec `v` with the setting `key=value`, or why there is no such setting.
pub open spec fn with_setting(
    v: SpecView,
    key: Seq<char>,
    value: Seq<char>,
    whole: Seq<char>,
) -> Result<SpecView, SpecErrorView> {
    if key == "baud"@ {
        match unsigned(value, 0xffff_ffff) {
            Some(n) => Ok(SpecView { baud: Some(n as u32), ..v }),
            None => Err(SpecErrorView::BadBaud(value)),
        }
    } else if key == "data-bits"@ || key == "data_bits"@ {
        match unsigned(value, 255) {
            Some(n) => Ok(SpecView { data_bits: Some(n as u8), ..v }),
            None => Err(SpecErrorView::BadDataBits(value)),
        }
    } else if key == "parity"@ {
        Ok(SpecView { parity: Some(value), ..v })
    } else if key == "stop-bits"@ || key == "stop_bits"@ {
        match unsigned(value, 255) {
            Some(n) => Ok(SpecView { stop_bits: Some(n as u8), ..v }),
            None => Err(SpecErrorView::BadStopBits(value)),
        }
    } else if key == "flow"@ || key == "flow-control"@ || key == "flow_control"@ {
        Ok(SpecView { flow_control: Some(value), ..v })
    } else if key == "pty"@ {
        Ok(SpecView { pty: Some(value), ..v })
    } else if key == "shell"@ {
        if is_shell(value) {
            Ok(SpecView { shell: value, ..v })
        } else {
            Err(SpecErrorView::BadShell(value))
        }
    } else if key == "prompt"@ {
        Ok(SpecView { prompt: Some(value), ..v })
    } else if key == "newline"@ {
        if is_newline_name(value) {
            Ok(SpecView { newline: Some(value), ..v })
        } else {
            Err(SpecErrorView::BadNewline(value))
        }
    } else {
        Err(SpecErrorView::UnknownKey(key, whole))
    }
}

/// The spec `v` with one comma-separated field applied: `key=value`, or `pty`
/// alone for the virtual port's default link.
pub open spec fn with_field(v: SpecView, field: Seq<char>, whole: Seq<char>) -> Result<
    SpecView,
    SpecErrorView,
> {
    match split_once(field, '=') {
        Some((k, value)) => with_setting(v, trim(k), value, whole),
        None => if trim(field) == "pty"@ {
            Ok(SpecView { pty: Some("/tmp/tether-"@ + v.id + ".pty"@), ..v })
        } else {
            Err(SpecErrorView::NotKeyValue(field))
        },
    }
}

/// The spec `v` with all fields from `i` on applied in order; the first that
/// fails decides.
pub open spec fn with_fields(v: SpecView, fields: Seq<Seq<char>>, i: int, whole: Seq<char>) -> Result<
    SpecView,
    SpecErrorView,
>
    decreases fields.len() - i,
{
    if i >= fields.len() {
        Ok(v)
    } else {
        match with_field(v, fields[i], whole) {
            Ok(w) => with_fields(w, fields, i + 1, whole),
            Err(e) => Err(e),
        }
    }
}

/// U-Boot's line editor takes a bare CR unless the spec says otherwise.
pub open spec fn with_console_defaults(v: SpecView) -> SpecView {
    if v.shell == "uboot"@ && v.newline is None {
        SpecView { newline: Some("cr"@), ..v }
    } else {
        v
    }
}

/// The spec that names a device and its path, and nothing else.
pub open spec fn bare_spec(id: Seq<char>, path: Seq<char>) -> SpecView {
    SpecView {
        id,
        path,
        baud: None,
        data_bits: None,
        parity: None,
        stop_bits: None,
        flow_control: None,
        pty: None,
        shell: "posix"@,
        prompt: None,
        newline: None,
    }
}

/// The spec that `head` starts: `id=path`, or a path alone.
pub open spec fn spec_head(head: Seq<char>, whole: Seq<char>) -> Result<SpecView, SpecErrorView> {
    match split_once(head, '=') {
        Some((id, path)) => if id.len() == 0 {
            Err(SpecErrorView::EmptyId(whole))
        } else if path.len() == 0 {
            Err(SpecErrorView::EmptyPath(whole))
        } else {
            Ok(bare_spec(id, path))
        },
        None => Ok(bare_spec(derived_id(head), head)),
    }
}

/// What a `-D` argument means, or why it means nothing.
pub open spec fn spec_meaning(s: Seq<char>) -> Result<SpecView, SpecErrorView> {
    let fields = split(s, ',');
    match spec_head(fields[0], s) {
        Ok(v) => match with_fields(v, fields, 1, s) {
            Ok(w) => Ok(with_console_defaults(w)),
            Err(e) => Err(e),
        },
        Err(e) => Err(e),
    }
}

/// A spec without settings names just the device: `id=path` gives exactly that
/// id and that path, and a path alone gives the id derived from it.
pub proof fn law_bare_specs(id: Seq<char>, path: Seq<char>)
    requires
        !path.contains(','),
    ensures
        id.len() > 0 && path.len() > 0 && !id.contains(',') && !id.contains('=') ==> spec_meaning(
            id + seq!['='] + path,
        ) == Ok::<SpecView, SpecErrorView>(bare_spec(id, path)),
        !path.contains('=') ==> spec_meaning(path) == Ok::<SpecView, SpecErrorView>(
            bare_spec(derived_id(path), path),
        ),
{
    reveal_strlit("posix");
    reveal_strlit("uboot");
    assert("posix"@[0] != "uboot"@[0]);
    if id.len() > 0 && path.len() > 0 && !id.contains(',') && !id.contains('=') {
        let s = id + seq!['='] + path;
        assert forall|k: int| 0 <= k < s.len() implies #[trigger] s[k] != ',' by {
            if k < id.len() {
                assert(s[k] == id[k]);
            } else if k > id.len() {
                assert(s[k] == path[k - id.len() - 1]);
            }
        }
        lemma_find_char_at(s, ',', s.len() as int);
        assert forall|k: int| 0 <= k < id.len() implies #[trigger] s[k] != '=' by {
            assert(s[k] == id[k]);
        }
        lemma_find_char_at(s, '=', id.len() as int);
        assert(s.take(id.len() as int) =~= id);
        assert(s.skip(id.len() as int + 1) =~= path);
        assert(split(s, ',') =~= seq![s]);
    }
    if !path.contains('=') {
        lemma_find_char_at(path, ',', path.len() as int);
        lemma_find_char_at(path, '=', path.len() as int);
        assert(split(path, ',') =~= seq![path]);
    }
}

fn blank_spec(id: String, path: String) -> (spec: DeviceSpec)
    ensures
        spec@ == bare_spec(id@, path@),
{
    DeviceSpec {
        id,
        path,
        baud: None,
        data_bits: None,
        parity: None,
        stop_bits: None,
        flow_control: None,
        pty: None,
        console: ConsolePersonality::default(),
    }
}

fn set_key(spec: DeviceSpec, key: &str, value: &Vec<char>, whole: &str) -> (r: Result<
    DeviceSpec,
    SpecError,
>)
    ensures
        match with_setting(spec@, key@, value@, whole@) {
            Ok(v) => r matches Ok(s) && s@ == v,
            Err(e) => r matches Err(m) && m@ == e,
        },
{
    let text = string_of(value.as_slice());
    let t = text.as_str();
    let mut spec = spec;
    if str_eq(key, "baud") {
        match parse_unsigned(value.as_slice(), 0xffff_ffff) {
            Some(n) => {
                spec.baud = Some(n as u32);
            },
            None => {
                return Err(SpecError::BadBaud(text));
            },
        }
    } else if str_eq(key, "data-bits") || str_eq(key, "data_bits") {
        match parse_unsigned(value.as_slice(), 255) {
            Some(n) => {
                spec.data_bits = Some(n as u8);
            },
            None => {
                return Err(SpecError::BadDataBits(text));
            },
        }
    } else if str_eq(key, "parity") {
        spec.parity = Some(text);
    } else if str_eq(key, "stop-bits") || str_eq(key, "stop_bits") {
        match parse_unsigned(value.as_slice(), 255) {
            Some(n) => {
                spec.stop_bits = Some(n as u8);
            },
            None => {
                return Err(SpecError::BadStopBits(text));
            },
        }
    } else if str_eq(key, "flow") || str_eq(key, "flow-control") || str_eq(key, "flow_control") {
        spec.flow_control = Some(text);
    } else if str_eq(key, "pty") {
        spec.pty = Some(text);
    } else if str_eq(key, "shell") {
        if !(str_eq(t, "posix") || str_eq(t, "uboot") || str_eq(t, "none")) {
            return Err(SpecError::BadShell(text));
        }
        spec.console.shell = text;
    } else if str_eq(key, "prompt") {
        spec.console.prompt = Some(text);
    } else if str_eq(key, "newline") {
        if !(str_eq(t, "lf") || str_eq(t, "cr") || str_eq(t, "crlf") || str_eq(t, "none")) {
            return Err(SpecError::BadNewline(text));
        }
        spec.console.newline = Some(text);
    } else {
        return Err(SpecError::UnknownKey(key.to_owned(), whole.to_owned()));
    }
    Ok(spec)
}

fn set_field(spec: DeviceSpec, field: &Vec<char>, whole: &str) -> (r: Result<DeviceSpec, SpecError>)
    ensures
        match with_field(spec@, field@, whole@) {
            Ok(v) => r matches Ok(s) && s@ == v,
            Err(e) => r matches Err(m) && m@ == e,
        },
{
    match split_once_chars(field.as_slice(), '=') {
        Some((k, value)) => {
            let key = string_of(trim_chars(k.as_slice()).as_slice());
            set_key(spec, key.as_str(), &value, whole)
        },
        None => {
            let word = string_of(trim_chars(field.as_slice()).as_slice());
            if str_eq(word.as_str(), "pty") {
                let mut spec = spec;
                spec.pty = Some(default_link(spec.id.as_str()));
                Ok(spec)
            } else {
                Err(SpecError::NotKeyValue(string_of(field.as_slice())))
            }
        },
    }
}

proof fn lemma_split_nonempty(s: Seq<char>, c: char)
    ensures
        split(s, c).len() > 0,
{
}

/// Parses one `-D` argument. Forms:
///
///   `path`
///   `id=path`
///   `id=path,key=value,key=value,...`
///   `path,key=value,key=value,...`        (id derived from path)
///
/// Recognised keys: `baud`, `data-bits` (or `data_bits`), `parity`,
/// `stop-bits` (or `stop_bits`), `flow` (or `flow-control` / `flow_control`),
/// `pty` (with or without a value), `shell`, `prompt`, `newline`.
pub fn parse_device_spec(s: &str) -> (r: Result<DeviceSpec, SpecError>)
    ensures
        match spec_meaning(s@) {
            Ok(v) => r matches Ok(spec) && spec@ == v,
            Err(e) => r matches Err(m) && m@ == e,
        },
{
    let chars = chars_of(s);
    let fields = split_chars(chars.as_slice(), ',');
    let ghost pieces = split(s@, ',');
    proof {
        lemma_split_nonempty(s@, ',');
        assert(all_chars(fields@) == pieces);
        assert(fields@.len() == pieces.len());
        assert(fields@[0]@ == pieces[0]);
    }
    let mut spec = match split_once_chars(fields[0].as_slice(), '=') {
        Some((id, path)) => {
            if id.len() == 0 {
                return Err(SpecError::EmptyId(s.to_owned()));
            }
            if path.len() == 0 {
                return Err(SpecError::EmptyPath(s.to_owned()));
            }
            blank_spec(string_of(id.as_slice()), string_of(path.as_slice()))
        },
        None => {
            let head = string_of(fields[0].as_slice());
            let id = derive_device_id(head.as_str());
            blank_spec(id, head)
        },
    };
    let ghost start = spec@;
    let mut i: usize = 1;
    while i < fields.len()
        invariant
            1 <= i <= fields@.len(),
            all_chars(fields@) == pieces,
            fields@.len() == pieces.len(),
            with_fields(spec@, pieces, i as int, s@) == with_fields(start, pieces, 1, s@),
            pieces == split(s@, ','),
            spec_head(pieces[0], s@) == Ok::<SpecView, SpecErrorView>(start),
        decreases fields@.len() - i,
    {
        assert(fields@[i as int]@ == pieces[i as int]);
        match set_field(spec, &fields[i], s) {
            Ok(next) => {
                spec = next;
            },
            Err(e) => {
                return Err(e);
            },
        }
        i = i + 1;
    }
    if str_eq(spec.console.shell.as_str(), "uboot") && spec.console.newline.is_none() {
        spec.console.newline = Some("cr".to_owned());
    }
    Ok(spec)
}

// ---------- Settings ----------

/// Settings for devices whose spec doesn't override them.
#[derive(Debug, Clone, Copy, PartialEq, Eq, Structural)]
pub struct SerialDefaults {
    pub baud: u32,
    pub data_bits: DataBits,
    pub parity: Parity,
    pub stop_bits: StopBits,
    pub flow_control: FlowControl,
}

/// What the global flags mean, or which one means nothing.
pub open spec fn defaults_meaning(
    baud: u32,
    data_bits: u8,
    parity: Seq<char>,
    stop_bits: u8,
    flow_control: Seq<char>,
) -> Result<SerialDefaults, SpecErrorView> {
    match (
        DataBits::of_count(data_bits as int),
        Parity::of_word(parity),
        StopBits::of_count(stop_bits as int),
        FlowControl::of_word(flow_control),
    ) {
        (None, _, _, _) => Err(SpecErrorView::DefaultDataBits(data_bits)),
        (_, None, _, _) => Err(SpecErrorView::DefaultParity(parity)),
        (_, _, None, _) => Err(SpecErrorView::DefaultStopBits(stop_bits)),
        (_, _, _, None) => Err(SpecErrorView::DefaultFlow(flow_control)),
        (Some(d), Some(p), Some(s), Some(f)) => Ok(
            SerialDefaults { baud, data_bits: d, parity: p, stop_bits: s, flow_control: f },
        ),
    }
}

/// Reads the global flags.
pub fn parse_defaults(
    baud: u32,
    data_bits: u8,
    parity: &str,
    stop_bits: u8,
    flow_control: &str,
) -> (r: Result<SerialDefaults, SpecError>)
    ensures
        match defaults_meaning(baud, data_bits, parity@, stop_bits, flow_control@) {
            Ok(d) => r matches Ok(x) && x == d,
            Err(e) => r matches Err(m) && m@ == e,
        },
{
    let d = match DataBits::from_u8(data_bits) {
        Some(v) => v,
        None => {
            return Err(SpecError::DefaultDataBits(data_bits));
        },
    };
    let p = match Parity::parse(parity) {
        Some(v) => v,
        None => {
            return Err(SpecError::DefaultParity(parity.to_owned()));
        },
    };
    let s = match StopBits::from_u8(stop_bits) {
        Some(v) => v,
        None => {
            return Err(SpecError::DefaultStopBits(stop_bits));
        },
    };
    let f = match FlowControl::parse(flow_control) {
        Some(v) => v,
        None => {
            return Err(SpecError::DefaultFlow(flow_control.to_owned()));
        },
    };
    Ok(SerialDefaults { baud, data_bits: d, parity: p, stop_bits: s, flow_control: f })
}

/// A device's value of a setting: its own word for it, or the default; none if
/// its word means nothing.
pub open spec fn own_or_default<T>(own: Option<Option<T>>, default: T) -> Option<T> {
    match own {
        Some(v) => v,
        None => Some(default),
    }
}

pub open spec fn own_data_bits(v: SpecView) -> Option<Option<DataBits>> {
    match v.data_bits {
        Some(n) => Some(DataBits::of_count(n as int)),
        None => None,
    }
}

pub open spec fn own_parity(v: SpecView) -> Option<Option<Parity>> {
    match v.parity {
        Some(w) => Some(Parity::of_word(w)),
        None => None,
    }
}

pub open spec fn own_stop_bits(v: SpecView) -> Option<Option<StopBits>> {
    match v.stop_bits {
        Some(n) => Some(StopBits::of_count(n as int)),
        None => None,
    }
}

pub open spec fn own_flow_control(v: SpecView) -> Option<Option<FlowControl>> {
    match v.flow_control {
        Some(w) => Some(FlowControl::of_word(w)),
        None => None,
    }
}

/// `cfg` is what a spec and the defaults make of a device.
pub open spec fn is_config_of(cfg: SerialConfig, v: SpecView, d: SerialDefaults) -> bool {
    &&& cfg.path@ == v.path
    &&& cfg.baud == crate::serial::or_keep(v.baud, d.baud)
    &&& own_or_default(own_data_bits(v), d.data_bits) == Some(cfg.data_bits)
    &&& own_or_default(own_parity(v), d.parity) == Some(cfg.parity)
    &&& own_or_default(own_stop_bits(v), d.stop_bits) == Some(cfg.stop_bits)
    &&& own_or_default(own_flow_control(v), d.flow_control) == Some(cfg.flow_control)
}

/// Why a spec makes no configuration, if it makes none; the first bad setting
/// counts.
pub open spec fn config_error(v: SpecView) -> Option<SpecErrorView> {
    if own_data_bits(v) == Some(None::<DataBits>) {
        Some(SpecErrorView::NoSuchDataBits(v.data_bits.unwrap(), v.id))
    } else if own_parity(v) == Some(None::<Parity>) {
        Some(SpecErrorView::NoSuchParity(v.parity.unwrap(), v.id))
    } else if own_stop_bits(v) == Some(None::<StopBits>) {
        Some(SpecErrorView::NoSuchStopBits(v.stop_bits.unwrap(), v.id))
    } else if own_flow_control(v) == Some(None::<FlowControl>) {
        Some(SpecErrorView::NoSuchFlow(v.flow_control.unwrap(), v.id))
    } else {
        None
    }
}

/// Builds a device's configuration from its spec and the defaults.
pub fn device_config(spec: &DeviceSpec, d: &SerialDefaults) -> (r: Result<SerialConfig, SpecError>)
    ensures
        match r {
            Ok(cfg) => config_error(spec@) is None && is_config_of(cfg, spec@, *d),
            Err(e) => config_error(spec@) == Some(e@),
        },
{
    let id = spec.id.as_str();
    let data_bits = match spec.data_bits {
        Some(n) => match DataBits::from_u8(n) {
            Some(v) => v,
            None => {
                return Err(SpecError::NoSuchDataBits(n, id.to_owned()));
            },
        },
        None => d.data_bits,
    };
    let parity = match &spec.parity {
        Some(s) => match Parity::parse(s.as_str()) {
            Some(v) => v,
            None => {
                return Err(SpecError::NoSuchParity(s.clone(), id.to_owned()));
            },
        },
        None => d.parity,
    };
    let stop_bits = match spec.stop_bits {
        Some(n) => match StopBits::from_u8(n) {
            Some(v) => v,
            None => {
                return Err(SpecError::NoSuchStopBits(n, id.to_owned()));
            },
        },
        None => d.stop_bits,
    };
    let flow_control = match &spec.flow_control {
        Some(s) => match FlowControl::parse(s.as_str()) {
            Some(v) => v,
            None => {
                return Err(SpecError::NoSuchFlow(s.clone(), id.to_owned()));
            },
        },
        None => d.flow_control,
    };
    let baud: u32 = match spec.baud {
        Some(b) => b,
        None => d.baud,
    };
    Ok(SerialConfig { path: spec.path.clone(), baud, data_bits, parity, stop_bits, flow_control })
}

/// Two specs share an id.
pub open spec fn repeats_id(specs: Seq<DeviceSpec>, i: int, j: int) -> bool {
    0 <= i < j < specs.len() && specs[i].id@ == specs[j].id@
}

/// Checks that there is a device and that no two share an id — an easy mistake
/// when mixing implicit and explicit forms.
pub fn check_specs(specs: &Vec<DeviceSpec>) -> (r: Result<(), SpecError>)
    ensures
        match r {
            Ok(()) => specs@.len() > 0 && forall|i: int, j: int| !repeats_id(specs@, i, j),
            Err(e) => if specs@.len() == 0 {
                e@ == SpecErrorView::NoDevice
            } else {
                exists|i: int, j: int|
                    #[trigger] repeats_id(specs@, i, j) && e@ == SpecErrorView::DuplicateId(
                        specs@[j].id@,
                    ) && forall|a: int, b: int| b < j ==> !repeats_id(specs@, a, b)
            },
        },
{
    if specs.len() == 0 {
        return Err(SpecError::NoDevice);
    }
    let mut j: usize = 0;
    while j < specs.len()
        invariant
            specs@.len() > 0,
            j <= specs@.len(),
            forall|a: int, b: int| b < j ==> !repeats_id(specs@, a, b),
        decreases specs@.len() - j,
    {
        let mut i: usize = 0;
        while i < j
            invariant
                i <= j < specs@.len(),
                forall|a: int, b: int| b < j ==> !repeats_id(specs@, a, b),
                forall|a: int| 0 <= a < i ==> !repeats_id(specs@, a, j as int),
            decreases j - i,
        {
            if str_eq(specs[i].id.as_str(), specs[j].id.as_str()) {
                assert(repeats_id(specs@, i as int, j as int));
                return Err(SpecError::DuplicateId(specs[j].id.clone()));
            }
            i = i + 1;
        }
        j = j + 1;
    }
    Ok(())
}

/// The daemon's state at startup: the first device is the default, nobody is
/// attached.
pub fn initial_state(devices: Vec<Device>, auth_token: Option<String>) -> (s: DaemonState)
    requires
        devices@.len() > 0,
        forall|i: int, j: int|
            0 <= i < j < devices@.len() ==> (#[trigger] devices@[i]).id@ != (
            #[trigger] devices@[j]).id@,
        forall|i: int|
            0 <= i < devices@.len() ==> (#[trigger] devices@[i]).wf() && devices@[i].lock@ is None,
    ensures
        s.wf(),
        s.devices == devices,
        s.default_device@ == devices@[0].id@,
        s.auth_token == auth_token,
        s.sessions.map() == Map::<Seq<char>, crate::session::Session>::empty(),
{
    let default_device = devices[0].id.clone();
    assert(is_device_at(devices@, default_device@, 0));
    DaemonState { devices, default_device, sessions: SessionManager::new(), auth_token }
}

// ---------- Listeners ----------

/// Resolves the effective UDS socket path:
///   1. `--socket PATH` always wins (most specific).
///   2. `--name NAME` → `/tmp/tetherd-<NAME>.sock` (multi-daemon convention).
///   3. Neither → `/tmp/tetherd.sock` (the historical default).
pub fn resolve_socket(socket: Option<&str>, name: Option<&str>) -> (path: String)
    ensures
        path@ == (match (socket, name) {
            (Some(p), _) => p@,
            (None, Some(n)) => "/tmp/tetherd-"@ + n@ + ".sock"@,
            (None, None) => "/tmp/tetherd.sock"@,
        }),
{
    match (socket, name) {
        (Some(p), _) => p.to_owned(),
        (None, Some(n)) => cat3("/tmp/tetherd-", n, ".sock"),
        (None, None) => "/tmp/tetherd.sock".to_owned(),
    }
}

/// Checks that the daemon will listen somewhere.
pub fn check_listeners(no_uds: bool, tcp: bool) -> (r: Result<(), String>)
    ensures
        match r {
            Ok(()) => !no_uds || tcp,
            Err(m) => no_uds && !tcp && m@
                == "--no-uds requires --tcp; otherwise the daemon has no listener"@,
        },
{
    if no_uds && !tcp {
        return Err("--no-uds requires --tcp; otherwise the daemon has no listener".to_owned());
    }
    Ok(())
}

/// A random token: 128 bits, in hexadecimal.
pub fn random_token() -> (t: String)
    ensures
        t@.len() == 32,
        forall|i: int| 0 <= i < 32 ==> is_lower_hex(#[trigger] t@[i]),
{
    fresh_hex_tag()
}

/// The token TCP clients must know: the given one, or else a random one. None
/// where TCP is off, whatever was given.
pub fn choose_token(tcp: bool, given: &Option<String>) -> (t: Option<String>)
    ensures
        !tcp ==> t is None,
        tcp && given is Some ==> opt_view(t) == opt_view(*given),
        tcp && given is None ==> (t matches Some(r) && r@.len() == 32 && forall|i: int|
            0 <= i < 32 ==> is_lower_hex(#[trigger] r@[i])),
{
    if !tcp {
        return None;
    }
    match given {
        Some(g) => Some(g.clone()),
        None => Some(random_token()),
    }
}

// ---------- Reachable addresses ----------

/// An address of one of the machine's network interfaces.
#[derive(Debug)]
pub struct InterfaceAddr {
    pub name: String,
    /// The address as text.
    pub ip: String,
    pub v4: bool,
    pub loopback: bool,
    /// The first sixteen bits of an IPv6 address.
    pub first_segment: u16,
}

/// A client could reach the daemon at this address: it is of the family that
/// the daemon listens on, and no IPv6 link-local one, which needs a zone id.
pub open spec fn is_useful(a: InterfaceAddr, want_v4: bool) -> bool {
    a.v4 == want_v4 && (a.v4 || a.first_segment & 0xffc0 != 0xfe80)
}

/// The addresses among the first `n` that are useful and on the given side.
pub open spec fn useful_of(
    all: Seq<InterfaceAddr>,
    n: int,
    want_v4: bool,
    loopback: bool,
) -> Seq<(Seq<char>, Option<Seq<char>>)>
    decreases n,
{
    if n <= 0 {
        Seq::empty()
    } else {
        let before = useful_of(all, n - 1, want_v4, loopback);
        let a = all[n - 1];
        if is_useful(a, want_v4) && a.loopback == loopback {
            before.push((a.ip@, Some(a.name@)))
        } else {
            before
        }
    }
}

pub open spec fn address_views(v: Seq<(String, Option<String>)>) -> Seq<
    (Seq<char>, Option<Seq<char>>),
> {
    v.map_values(|x: (String, Option<String>)| (x.0@, opt_view(x.1)))
}

/// The addresses a client could actually reach the daemon on. A wildcard bind
/// stands for every useful interface address, loopback first; a specific bind,
/// or interfaces that cannot be listed, for the bound address itself.
pub fn enumerate_reachable_ips(
    bind_ip: &str,
    want_v4: bool,
    wildcard: bool,
    interfaces: &Option<Vec<InterfaceAddr>>,
) -> (r: Vec<(String, Option<String>)>)
    ensures
        address_views(r@) == (match *interfaces {
            Some(all) => if wildcard {
                useful_of(all@, all@.len() as int, want_v4, true) + useful_of(
                    all@,
                    all@.len() as int,
                    want_v4,
                    false,
                )
            } else {
                seq![(bind_ip@, None::<Seq<char>>)]
            },
            None => seq![(bind_ip@, None::<Seq<char>>)],
        }),
{
    if wildcard {
        if let Some(all) = interfaces {
            let mut first: Vec<(String, Option<String>)> = Vec::new();
            let mut rest: Vec<(String, Option<String>)> = Vec::new();
            let mut i: usize = 0;
            assert(address_views(first@) =~= useful_of(all@, 0, want_v4, true));
            assert(address_views(rest@) =~= useful_of(all@, 0, want_v4, false));
            while i < all.len()
                invariant
                    i <= all@.len(),
                    address_views(first@) == useful_of(all@, i as int, want_v4, true),
                    address_views(rest@) == useful_of(all@, i as int, want_v4, false),
                decreases all@.len() - i,
            {
                let a = &all[i];
                let ghost f0 = address_views(first@);
                let ghost r0 = address_views(rest@);
                if a.v4 == want_v4 && (a.v4 || a.first_segment & 0xffc0 != 0xfe80) {
                    let entry = (a.ip.clone(), Some(a.name.clone()));
                    if a.loopback {
                        first.push(entry);
                        assert(address_views(first@) =~= f0.push((a.ip@, Some(a.name@))));
                    } else {
                        rest.push(entry);
                        assert(address_views(rest@) =~= r0.push((a.ip@, Some(a.name@))));
                    }
                }
                i = i + 1;
            }
            let ghost f = address_views(first@);
            let ghost r = address_views(rest@);
            first.append(&mut rest);
            assert(address_views(first@) =~= f + r);
            return first;
        }
    }
    let mut one: Vec<(String, Option<String>)> = Vec::new();
    one.push((bind_ip.to_owned(), None));
    assert(address_views(one@) =~= seq![(bind_ip@, None::<Seq<char>>)]);
    one
}

// ---------- From the text of a spec to the configuration ----------

proof fn lemma_split_push(t: Seq<char>, f: Seq<char>)
    requires
        !f.contains(','),
    ensures
        split(t + seq![','] + f, ',') == split(t, ',').push(f),
    decreases t.len(),
{
    let s = t + seq![','] + f;
    lemma_find_char(t, ',');
    let n = crate::text::find_char(t, ',') as int;
    assert forall|k: int| 0 <= k < n implies #[trigger] s[k] != ',' by {
        assert(s[k] == t[k]);
    }
    if n < t.len() {
        assert(s[n] == t[n]);
        lemma_find_char_at(s, ',', n);
        let rest = t.skip(n + 1);
        assert(s.take(n) =~= t.take(n));
        assert(s.skip(n + 1) =~= rest + seq![','] + f);
        lemma_split_push(rest, f);
        assert(seq![t.take(n)] + split(rest, ',').push(f) =~= (seq![t.take(n)] + split(
            rest,
            ',',
        )).push(f));
    } else {
        assert(s[n] == ',');
        lemma_find_char_at(s, ',', n);
        assert(s.take(n) =~= t);
        assert(s.skip(n + 1) =~= f);
        assert forall|k: int| 0 <= k < f.len() implies #[trigger] f[k] != ',' by {
            assert(f.contains(f[k]));
        }
        lemma_find_char_at(f, ',', f.len() as int);
        assert(split(f, ',') == seq![f]);
        assert(split(t, ',') == seq![t]);
        assert(split(s, ',') =~= split(t, ',').push(f));
    }
}

/// Whatever is accepted means the same whatever text it stands in.
proof fn lemma_fields_in_any_text(
    v: SpecView,
    fields: Seq<Seq<char>>,
    i: int,
    one: Seq<char>,
    two: Seq<char>,
)
    requires
        with_fields(v, fields, i, one) is Ok,
    ensures
        with_fields(v, fields, i, two) == with_fields(v, fields, i, one),
    decreases fields.len() - i,
{
    if i < fields.len() {
        assert(with_field(v, fields[i], one) is Ok);
        assert(with_field(v, fields[i], two) == with_field(v, fields[i], one));
        lemma_fields_in_any_text(
            with_field(v, fields[i], one)->Ok_0,
            fields,
            i + 1,
            one,
            two,
        );
    }
}

proof fn lemma_with_fields_push(
    v: SpecView,
    fields: Seq<Seq<char>>,
    f: Seq<char>,
    i: int,
    whole: Seq<char>,
)
    requires
        0 <= i <= fields.len(),
        with_fields(v, fields, i, whole) is Ok,
    ensures
        with_fields(v, fields.push(f), i, whole) == with_field(
            with_fields(v, fields, i, whole)->Ok_0,
            f,
            whole,
        ),
    decreases fields.len() - i,
{
    let more = fields.push(f);
    if i < fields.len() {
        assert(more[i] == fields[i]);
        lemma_with_fields_push(
            with_field(v, fields[i], whole)->Ok_0,
            fields,
            f,
            i + 1,
            whole,
        );
    } else {
        assert(more[i] == f);
        match with_field(v, f, whole) {
            Ok(w) => {
                assert(with_fields(w, more, i + 1, whole) == Ok::<SpecView, SpecErrorView>(w));
            },
            Err(e) => {},
        }
    }
}

/// One more field applies to what the text before it means.
proof fn lemma_one_more_field(t: Seq<char>, f: Seq<char>)
    requires
        spec_meaning(t) is Ok,
        !f.contains(','),
    ensures
        ({
            let whole = t + seq![','] + f;
            exists|v: SpecView|
                spec_meaning(t) == Ok::<SpecView, SpecErrorView>(with_console_defaults(v))
                    && spec_meaning(whole) == (match #[trigger] with_field(v, f, whole) {
                    Ok(w) => Ok::<SpecView, SpecErrorView>(with_console_defaults(w)),
                    Err(e) => Err(e),
                })
        }),
{
    let whole = t + seq![','] + f;
    let fields = split(t, ',');
    crate::text::law_split_rejoins(t, ',');
    lemma_split_push(t, f);
    let head = spec_head(fields[0], t)->Ok_0;
    assert(spec_head(fields[0], whole) == spec_head(fields[0], t));
    assert(fields.push(f)[0] == fields[0]);
    let v = with_fields(head, fields, 1, t)->Ok_0;
    lemma_fields_in_any_text(head, fields, 1, t, whole);
    lemma_with_fields_push(head, fields, f, 1, whole);
    assert(with_field(v, f, whole) == with_fields(head, fields.push(f), 1, whole));
}

proof fn lemma_setting_field(v: SpecView, key: Seq<char>, w: Seq<char>, whole: Seq<char>)
    requires
        !key.contains('='),
        key.len() > 0,
        'a' <= key[0] <= 'z',
        'a' <= key.last() <= 'z',
    ensures
        with_field(v, key + seq!['='] + w, whole) == with_setting(v, key, w, whole),
{
    crate::text::law_split_once(key, '=', w);
    crate::text::law_white_space(key[0]);
    crate::text::law_white_space(key.last());
    let none = Seq::<char>::empty();
    assert(none + key + none =~= key);
    crate::text::law_trim(none, key, none);
}

/// Adding `,key=value` to a spec that is understood sets that one setting and
/// leaves every other as it was, wherever it was set before. A number must be
/// one and fit; a shell and a terminator must be known; an unknown key is an
/// error.
pub proof fn law_each_field_sets_its_own(
    text: &str,
    longer: &str,
    key: Seq<char>,
    w: Seq<char>,
    n: nat,
    k: int,
    a: Result<DeviceSpec, SpecError>,
    b: Result<DeviceSpec, SpecError>,
)
    requires
        !key.contains('=') && !key.contains(',') && !w.contains(','),
        key.len() > 0 && 'a' <= key[0] <= 'z' && 'a' <= key.last() <= 'z',
        longer@ == text@ + seq![','] + (key + seq!['='] + w),
        call_ensures(parse_device_spec, (text,), a),
        call_ensures(parse_device_spec, (longer,), b),
        a is Ok,
    ensures
        ({
            let x = a->Ok_0@;
            let y = b->Ok_0@;
            &&& key == "parity"@ ==> b is Ok && y == SpecView { parity: Some(w), ..x }
            &&& key == "flow"@ || key == "flow-control"@ || key == "flow_control"@ ==> b is Ok && y
                == SpecView { flow_control: Some(w), ..x }
            &&& key == "prompt"@ ==> b is Ok && y == SpecView { prompt: Some(w), ..x }
            &&& key == "pty"@ ==> b is Ok && y == SpecView { pty: Some(w), ..x }
            &&& key == "baud"@ && w == decimal(n) && n <= u32::MAX ==> b is Ok && y == SpecView {
                baud: Some(n as u32),
                ..x
            }
            &&& (key == "data-bits"@ || key == "data_bits"@) && w == decimal(n) && n <= 255 ==> b
                is Ok && y == SpecView { data_bits: Some(n as u8), ..x }
            &&& (key == "stop-bits"@ || key == "stop_bits"@) && w == decimal(n) && n <= 255 ==> b
                is Ok && y == SpecView { stop_bits: Some(n as u8), ..x }
            &&& (key == "baud"@ || key == "data-bits"@ || key == "stop-bits"@) && (w.len() == 0 || (
            0 <= k < w.len() && 'a' <= w[k] <= 'z')) ==> b is Err
            &&& key == "newline"@ && (w == "lf"@ || w == "cr"@ || w == "crlf"@ || w == "none"@)
                ==> b is Ok && y == SpecView { newline: Some(w), ..x }
            &&& key == "newline"@ ==> (b is Ok <==> w == "lf"@ || w == "cr"@ || w == "crlf"@ || w
                == "none"@)
            &&& key == "shell"@ ==> (b is Ok <==> w == "posix"@ || w == "uboot"@ || w == "none"@)
            &&& key == "shell"@ && b is Ok ==> y.shell == w
            &&& key == "shell"@ && b is Ok && w == "uboot"@ && x.newline is None ==> y.newline
                == Some("cr"@)
            &&& b is Ok ==> y.id == x.id && y.path == x.path
            &&& b is Ok ==> key == "baud"@ || key == "data-bits"@ || key == "data_bits"@ || key
                == "parity"@ || key == "stop-bits"@ || key == "stop_bits"@ || key == "flow"@ || key
                == "flow-control"@ || key == "flow_control"@ || key == "pty"@ || key == "shell"@
                || key == "prompt"@ || key == "newline"@
        }),
{
    let f = key + seq!['='] + w;
    assert(!f.contains(',')) by {
        if f.contains(',') {
            let j = choose|j: int| 0 <= j < f.len() && f[j] == ',';
            if j < key.len() {
                assert(key[j] == ',');
            } else if j > key.len() {
                assert(w[j - key.len() - 1] == ',');
            }
        }
    }
    lemma_one_more_field(text@, f);
    let whole = text@ + seq![','] + f;
    let v = choose|v: SpecView|
        spec_meaning(text@) == Ok::<SpecView, SpecErrorView>(with_console_defaults(v))
            && spec_meaning(whole) == (match #[trigger] with_field(v, f, whole) {
            Ok(w) => Ok::<SpecView, SpecErrorView>(with_console_defaults(w)),
            Err(e) => Err(e),
        });
    lemma_setting_field(v, key, w, whole);
    crate::text::law_unsigned(n, 0xffff_ffff, w, k);
    crate::text::law_unsigned(n, 255, w, k);
    if w.len() == 0 {
        assert(w =~= Seq::empty());
    }
    reveal_strlit("baud");
    reveal_strlit("data-bits");
    reveal_strlit("data_bits");
    reveal_strlit("parity");
    reveal_strlit("stop-bits");
    reveal_strlit("stop_bits");
    reveal_strlit("flow");
    reveal_strlit("flow-control");
    reveal_strlit("flow_control");
    reveal_strlit("pty");
    reveal_strlit("shell");
    reveal_strlit("prompt");
    reveal_strlit("newline");
    reveal_strlit("uboot");
    reveal_strlit("posix");
    reveal_strlit("none");
    assert("baud"@[0] == 'b' && "flow"@[0] == 'f');
    assert("data-bits"@[0] == 'd' && "data_bits"@[0] == 'd' && "stop-bits"@[0] == 's'
        && "stop_bits"@[0] == 's' && "shell"@.len() == 5);
    assert("parity"@[1] == 'a' && "prompt"@[1] == 'r' && "pty"@.len() == 3);
    assert("flow-control"@.len() == 12 && "flow_control"@.len() == 12 && "newline"@.len() == 7);
    assert("uboot"@[0] == 'u' && "posix"@[0] == 'p' && "none"@[0] == 'n');
}

/// A device's own word wins for each setting, and the global flag counts where
/// its spec is silent; a word that means nothing makes no configuration.
pub proof fn law_own_setting_or_default(
    spec: &DeviceSpec,
    d: &SerialDefaults,
    r: Result<SerialConfig, SpecError>,
)
    requires
        call_ensures(device_config, (spec, d), r),
    ensures
        r is Err <==> {
            ||| spec.data_bits matches Some(n) && !(5 <= n <= 8)
            ||| spec.parity matches Some(w) && Parity::of_word(w@) is None
            ||| spec.stop_bits matches Some(n) && !(1 <= n <= 2)
            ||| spec.flow_control matches Some(w) && FlowControl::of_word(w@) is None
        },
        r matches Ok(cfg) ==> cfg.path@ == spec.path@,
        r matches Ok(cfg) ==> (match spec.baud {
            Some(n) => cfg.baud == n,
            None => cfg.baud == d.baud,
        }),
        r matches Ok(cfg) ==> (match spec.data_bits {
            Some(n) => cfg.data_bits.count() == n,
            None => cfg.data_bits == d.data_bits,
        }),
        r matches Ok(cfg) ==> (match spec.parity {
            Some(w) => Parity::of_word(w@) == Some(cfg.parity),
            None => cfg.parity == d.parity,
        }),
        r matches Ok(cfg) ==> (match spec.stop_bits {
            Some(n) => cfg.stop_bits.count() == n,
            None => cfg.stop_bits == d.stop_bits,
        }),
        r matches Ok(cfg) ==> (match spec.flow_control {
            Some(w) => FlowControl::of_word(w@) == Some(cfg.flow_control),
            None => cfg.flow_control == d.flow_control,
        }),
{
}

/// The global flags mean what they say, each for itself.
pub proof fn law_defaults_are_the_flags(
    baud: u32,
    data_bits: u8,
    parity: &str,
    stop_bits: u8,
    flow_control: &str,
    r: Result<SerialDefaults, SpecError>,
)
    requires
        call_ensures(parse_defaults, (baud, data_bits, parity, stop_bits, flow_control), r),
    ensures
        r is Ok <==> 5 <= data_bits <= 8 && Parity::of_word(parity@) is Some && 1 <= stop_bits <= 2
            && FlowControl::of_word(flow_control@) is Some,
        r matches Ok(d) ==> d.baud == baud && d.data_bits.count() == data_bits && Parity::of_word(
            parity@,
        ) == Some(d.parity) && d.stop_bits.count() == stop_bits && FlowControl::of_word(
            flow_control@,
        ) == Some(d.flow_control),
{
}

/// From the text to the port: `id=path,key=value` opens that path under that
/// id, with the device's own value for that setting and the global flags for
/// the rest.
pub proof fn law_spec_text_configures_the_port(
    text: &str,
    id: Seq<char>,
    path: Seq<char>,
    key: Seq<char>,
    w: Seq<char>,
    n: nat,
    d: &SerialDefaults,
    r: Result<DeviceSpec, SpecError>,
    c: Result<SerialConfig, SpecError>,
)
    requires
        id.len() > 0 && !id.contains(',') && !id.contains('='),
        path.len() > 0 && !path.contains(','),
        !key.contains('=') && !key.contains(',') && !w.contains(','),
        key.len() > 0 && 'a' <= key[0] <= 'z' && 'a' <= key.last() <= 'z',
        text@ == (id + seq!['='] + path) + seq![','] + (key + seq!['='] + w),
        call_ensures(parse_device_spec, (text,), r),
        r matches Ok(spec) ==> call_ensures(device_config, (&spec, d), c),
    ensures
        r matches Ok(spec) ==> spec.id@ == id,
        r is Ok && c is Ok ==> c->Ok_0.path@ == path,
        key == "flow"@ ==> r is Ok && (match FlowControl::of_word(w) {
            Some(f) => c matches Ok(cfg) && cfg.flow_control == f && cfg.baud == d.baud
                && cfg.data_bits == d.data_bits && cfg.parity == d.parity && cfg.stop_bits
                == d.stop_bits,
            None => c is Err,
        }),
        key == "parity"@ ==> r is Ok && (match Parity::of_word(w) {
            Some(p) => c matches Ok(cfg) && cfg.parity == p && cfg.baud == d.baud && cfg.data_bits
                == d.data_bits && cfg.flow_control == d.flow_control && cfg.stop_bits
                == d.stop_bits,
            None => c is Err,
        }),
        key == "baud"@ && w == decimal(n) && n <= u32::MAX ==> r is Ok && c is Ok && c->Ok_0.baud
            == n && c->Ok_0.parity == d.parity && c->Ok_0.data_bits == d.data_bits
            && c->Ok_0.flow_control == d.flow_control && c->Ok_0.stop_bits == d.stop_bits,
        key == "data-bits"@ && w == decimal(n) && 5 <= n <= 8 ==> r is Ok && c is Ok
            && c->Ok_0.data_bits.count() == n && c->Ok_0.baud == d.baud && c->Ok_0.parity
            == d.parity && c->Ok_0.flow_control == d.flow_control && c->Ok_0.stop_bits
            == d.stop_bits,
        key == "stop-bits"@ && w == decimal(n) && 1 <= n <= 2 ==> r is Ok && c is Ok
            && c->Ok_0.stop_bits.count() == n && c->Ok_0.baud == d.baud && c->Ok_0.parity
            == d.parity && c->Ok_0.flow_control == d.flow_control && c->Ok_0.data_bits
            == d.data_bits,
{
    let head = id + seq!['='] + path;
    let f = key + seq!['='] + w;
    law_bare_specs(id, path);
    assert(!f.contains(',')) by {
        if f.contains(',') {
            let j = choose|j: int| 0 <= j < f.len() && f[j] == ',';
            if j < key.len() {
                assert(key[j] == ',');
            } else if j > key.len() {
                assert(w[j - key.len() - 1] == ',');
            }
        }
    }
    lemma_one_more_field(head, f);
    let whole = head + seq![','] + f;
    let v = choose|v: SpecView|
        spec_meaning(head) == Ok::<SpecView, SpecErrorView>(with_console_defaults(v))
            && spec_meaning(whole) == (match #[trigger] with_field(v, f, whole) {
            Ok(w) => Ok::<SpecView, SpecErrorView>(with_console_defaults(w)),
            Err(e) => Err(e),
        });
    lemma_setting_field(v, key, w, whole);
    crate::text::law_unsigned(n, 0xffff_ffff, w, 0);
    crate::text::law_unsigned(n, 255, w, 0);
    reveal_strlit("baud");
    reveal_strlit("data-bits");
    reveal_strlit("data_bits");
    reveal_strlit("parity");
    reveal_strlit("stop-bits");
    reveal_strlit("stop_bits");
    reveal_strlit("flow");
    assert("baud"@[0] == 'b' && "flow"@[0] == 'f');
    assert("data-bits"@[0] == 'd' && "data_bits"@[0] == 'd' && "stop-bits"@[0] == 's'
        && "stop_bits"@[0] == 's');
    assert("parity"@.len() == 6);
}

/// A device given by its path alone is known by the path's last name, less a
/// leading `tty.` or `cu.`.
pub proof fn law_id_from_path(path: &str, dir: Seq<char>, name: Seq<char>, id: String)
    requires
        name.len() > 0 && !name.contains('/'),
        name != seq!['.'] && name != seq!['.', '.'],
        path@ == dir + seq!['/'] + name || path@ == name,
        call_ensures(derive_device_id, (path,), id),
    ensures
        starts_with(name, "tty."@) ==> "tty."@ + id@ == name,
        starts_with(name, "cu."@) ==> "cu."@ + id@ == name,
        !starts_with(name, "tty."@) && !starts_with(name, "cu."@) ==> id@ == name,
{
    let s = path@;
    if s == name {
        lemma_last_component_at(s, 0);
        assert(s.skip(0) =~= s);
    } else {
        let n = dir.len() as int + 1;
        assert(s[n - 1] == '/');
        assert forall|k: int| n <= k < s.len() implies #[trigger] s[k] != '/' by {
            assert(s[k] == name[k - n]);
            assert(name.contains(name[k - n]));
        }
        lemma_last_component_at(s, n);
        assert(s.skip(n) =~= name);
    }
    reveal_strlit("tty.");
    reveal_strlit("cu.");
    assert("tty."@[0] == 't' && "cu."@[0] == 'c');
    if starts_with(name, "tty."@) {
        assert(name[0] == name.take(4)[0]);
        assert("tty."@ + name.skip(4) =~= name);
    }
    if starts_with(name, "cu."@) {
        assert(name[0] == name.take(3)[0]);
        assert(name.take(3)[0] == 'c');
        assert("cu."@ + name.skip(3) =~= name);
        if starts_with(name, "tty."@) {
            assert(name.take(4)[0] == 't');
        }
    }
}

proof fn lemma_last_component_at(s: Seq<char>, n: int)
    requires
        0 <= n <= s.len(),
        n > 0 ==> s[n - 1] == '/',
        forall|k: int| n <= k < s.len() ==> #[trigger] s[k] != '/',
        n == 0 ==> !s.contains('/'),
    ensures
        last_component(s) == n,
    decreases s.len(),
{
    if s.len() > n {
        let t = s.drop_last();
        if n == 0 {
            assert(s.contains(s.last()));
            assert(!t.contains('/')) by {
                if t.contains('/') {
                    let k = choose|k: int| 0 <= k < t.len() && t[k] == '/';
                    assert(s[k] == '/');
                }
            }
        } else {
            assert(s[s.len() - 1] != '/');
        }
        assert forall|k: int| n <= k < t.len() implies #[trigger] t[k] != '/' by {
            assert(t[k] == s[k]);
        }
        lemma_last_component_at(t, n);
    }
}

/// The daemon starts with the given devices in their order, the first being
/// the default, with no sessions, and with the given token.
pub proof fn law_daemon_starts_fresh(
    devices: Vec<Device>,
    auth_token: Option<String>,
    s: DaemonState,
)
    requires
        devices@.len() > 0,
        call_ensures(initial_state, (devices, auth_token), s),
    ensures
        s.devices@ == devices@,
        s.default_device@ == devices@[0].id@,
        s.auth_token == auth_token,
        s.sessions.map().dom() =~= Set::empty(),
{
}

/// `--socket` wins over `--name`, which names a socket of its own; the daemon
/// must listen somewhere; and a token guards TCP alone: the one given, or 128
/// random bits.
pub proof fn law_listening(
    socket: Option<&str>,
    name: Option<&str>,
    path: String,
    no_uds: bool,
    tcp: bool,
    listens: Result<(), String>,
    given: &Option<String>,
    token: Option<String>,
)
    requires
        call_ensures(resolve_socket, (socket, name), path),
        call_ensures(check_listeners, (no_uds, tcp), listens),
        call_ensures(choose_token, (tcp, given), token),
    ensures
        socket matches Some(p) ==> path@ == p@,
        socket is None ==> (name matches Some(n) ==> path@ == "/tmp/tetherd-"@ + n@ + ".sock"@),
        socket is None && name is None ==> path@ == "/tmp/tetherd.sock"@,
        listens is Err <==> no_uds && !tcp,
        token is Some <==> tcp,
        tcp ==> (given matches Some(g) ==> token->Some_0@ == g@),
        tcp && given is None ==> token->Some_0@.len() == 32,
{
}

/// Specs are refused if and only if there is none or two share an id.
pub proof fn law_ids_are_distinct(specs: &Vec<DeviceSpec>, r: Result<(), SpecError>)
    requires
        call_ensures(check_specs, (specs,), r),
    ensures
        r is Ok <==> specs@.len() > 0 && forall|i: int, j: int|
            0 <= i < j < specs@.len() ==> (#[trigger] specs@[i]).id@ != (#[trigger] specs@[j]).id@,
{
    if r is Ok {
        assert forall|i: int, j: int| 0 <= i < j < specs@.len() implies (#[trigger] specs@[i]).id@
            != (#[trigger] specs@[j]).id@ by {
            assert(!repeats_id(specs@, i, j));
        }
    } else if specs@.len() > 0 {
        let (i, j) = choose|i: int, j: int| #[trigger] repeats_id(specs@, i, j);
        assert(specs@[i].id@ == specs@[j].id@);
    }
}

/// `pty` alone links the virtual port under the device's id; an id or a path
/// that is empty, and a word that is no setting, are errors.
pub proof fn law_spec_corner_cases(
    text: &str,
    longer: &str,
    a: Result<DeviceSpec, SpecError>,
    b: Result<DeviceSpec, SpecError>,
    word: Seq<char>,
    path: Seq<char>,
    t: &str,
    r: Result<DeviceSpec, SpecError>,
    id: &str,
    link: String,
)
    requires
        call_ensures(parse_device_spec, (text,), a),
        call_ensures(parse_device_spec, (longer,), b),
        call_ensures(parse_device_spec, (t,), r),
        call_ensures(default_link, (id,), link),
        a is Ok,
        !word.contains(',') && !word.contains('='),
        word.len() > 0 && 'a' <= word[0] <= 'z' && 'a' <= word.last() <= 'z',
        longer@ == text@ + seq![','] + word,
        !path.contains(','),
    ensures
        word == "pty"@ ==> b is Ok && b->Ok_0@ == (SpecView {
            pty: Some("/tmp/tether-"@ + a->Ok_0@.id + ".pty"@),
            ..a->Ok_0@
        }),
        word != "pty"@ ==> b is Err,
        t@ == seq!['='] + path ==> r is Err,
        t@ == path + seq!['='] && !path.contains('=') ==> r is Err,
        link@ == "/tmp/tether-"@ + id@ + ".pty"@,
{
    lemma_one_more_field(text@, word);
    let whole = text@ + seq![','] + word;
    let v = choose|v: SpecView|
        spec_meaning(text@) == Ok::<SpecView, SpecErrorView>(with_console_defaults(v))
            && spec_meaning(whole) == (match #[trigger] with_field(v, word, whole) {
            Ok(w) => Ok::<SpecView, SpecErrorView>(with_console_defaults(w)),
            Err(e) => Err(e),
        });
    crate::text::law_split_once(word, '=', Seq::empty());
    crate::text::law_white_space(word[0]);
    crate::text::law_white_space(word.last());
    let none = Seq::<char>::empty();
    assert(none + word + none =~= word);
    crate::text::law_trim(none, word, none);
    if t@ == seq!['='] + path {
        lemma_no_comma(t@, path);
        assert(none + seq!['='] + path =~= t@);
        crate::text::law_split_once(none, '=', path);
    }
    if t@ == path + seq!['='] && !path.contains('=') {
        assert(!t@.contains(',')) by {
            if t@.contains(',') {
                let k = choose|k: int| 0 <= k < t@.len() && t@[k] == ',';
                assert(path[k] == ',');
            }
        }
        lemma_one_field(t@);
        assert(path + seq!['='] + none =~= t@);
        crate::text::law_split_once(path, '=', none);
    }
}

proof fn lemma_one_field(t: Seq<char>)
    requires
        !t.contains(','),
    ensures
        split(t, ',') == seq![t],
{
    assert forall|k: int| 0 <= k < t.len() implies #[trigger] t[k] != ',' by {
        assert(t.contains(t[k]));
    }
    lemma_find_char_at(t, ',', t.len() as int);
}

proof fn lemma_no_comma(t: Seq<char>, path: Seq<char>)
    requires
        t == seq!['='] + path,
        !path.contains(','),
    ensures
        split(t, ',') == seq![t],
{
    assert(!t.contains(',')) by {
        if t.contains(',') {
            let k = choose|k: int| 0 <= k < t.len() && t[k] == ',';
            if k > 0 {
                assert(path[k - 1] == ',');
            }
        }
    }
    lemma_one_field(t);
}

/// A daemon bound to one address is reached there. One bound to all is reached
/// at each address of the family it listens on that needs no zone, loopback
/// first: with one more interface that address is added, at the end of its
/// side, if and only if it is such a one.
pub proof fn law_reachable_addresses(
    bind_ip: &str,
    want_v4: bool,
    all: Seq<InterfaceAddr>,
    n: int,
    loopback: bool,
    interfaces: &Option<Vec<InterfaceAddr>>,
    r: Vec<(String, Option<String>)>,
    w: Vec<(String, Option<String>)>,
)
    requires
        call_ensures(enumerate_reachable_ips, (bind_ip, want_v4, false, interfaces), r),
        call_ensures(enumerate_reachable_ips, (bind_ip, want_v4, true, interfaces), w),
        0 <= n < all.len(),
    ensures
        r@.len() == 1 && r@[0].0@ == bind_ip@ && r@[0].1 is None,
        interfaces is None ==> w@.len() == 1 && w@[0].0@ == bind_ip@ && w@[0].1 is None,
        *interfaces matches Some(v) ==> address_views(w@) == useful_of(
            v@,
            v@.len() as int,
            want_v4,
            true,
        ) + useful_of(v@, v@.len() as int, want_v4, false),
        useful_of(all, 0, want_v4, loopback) == Seq::<(Seq<char>, Option<Seq<char>>)>::empty(),
        all[n].loopback == loopback && all[n].v4 == want_v4 && (all[n].v4 || !(0xfe80
            <= all[n].first_segment <= 0xfebf)) ==> useful_of(all, n + 1, want_v4, loopback)
            == useful_of(all, n, want_v4, loopback).push((all[n].ip@, Some(all[n].name@))),
        !(all[n].loopback == loopback && all[n].v4 == want_v4 && (all[n].v4 || !(0xfe80
            <= all[n].first_segment <= 0xfebf))) ==> useful_of(all, n + 1, want_v4, loopback)
            == useful_of(all, n, want_v4, loopback),
{
    let seg = all[n].first_segment;
    assert((seg & 0xffc0 == 0xfe80) <==> (0xfe80 <= seg && seg <= 0xfebf)) by (bit_vector);
    assert(address_views(r@).len() == r@.len());
    assert(address_views(r@)[0] == (r@[0].0@, opt_view(r@[0].1)));
    if interfaces is None {
        assert(address_views(w@).len() == w@.len());
        assert(address_views(w@)[0] == (w@[0].0@, opt_view(w@[0].1)));
    }
}

/// The operator is told what was wrong, and in which device's words.
pub proof fn law_spec_messages(e: &SpecError, first: &str, second: &str, s: String)
    requires
        call_ensures(SpecError::message_with, (e, first, second), s),
    ensures
        ({
            let f = first@;
            let g = second@;
            match *e {
                SpecError::EmptyId(_) => s@ == "empty id in -D spec "@ + f + ""@ + g,
                SpecError::EmptyPath(_) => s@ == "empty path in -D spec "@ + f + ""@ + g,
                SpecError::NotKeyValue(_) => s@ == "expected key=value, got "@ + f
                    + " in -D spec"@ + g,
                SpecError::BadBaud(_) => s@ == "invalid baud "@ + f + " in -D spec"@ + g,
                SpecError::BadDataBits(_) => s@ == "invalid data-bits "@ + f + ""@ + g,
                SpecError::BadStopBits(_) => s@ == "invalid stop-bits "@ + f + ""@ + g,
                SpecError::BadShell(_) => s@ == "invalid shell "@ + f
                    + " in -D spec (expected posix, uboot or none)"@ + g,
                SpecError::BadNewline(_) => s@ == "invalid newline "@ + f
                    + " in -D spec (expected lf, cr, crlf or none)"@ + g,
                SpecError::UnknownKey(_, _) => s@ == "unknown key "@ + f + " in -D spec "@ + g,
                SpecError::NoSuchDataBits(_, _) => s@ == "invalid data-bits "@ + f + " in -D "@ + g,
                SpecError::NoSuchParity(_, _) => s@ == "invalid parity "@ + f + " in -D "@ + g,
                SpecError::NoSuchStopBits(_, _) => s@ == "invalid stop-bits "@ + f + " in -D "@ + g,
                SpecError::NoSuchFlow(_, _) => s@ == "invalid flow "@ + f + " in -D "@ + g,
                SpecError::DefaultDataBits(_) => s@ == "invalid --data-bits "@ + f + ""@ + g,
                SpecError::DefaultParity(_) => s@ == "invalid --parity "@ + f + ""@ + g,
                SpecError::DefaultStopBits(_) => s@ == "invalid --stop-bits "@ + f + ""@ + g,
                SpecError::DefaultFlow(_) => s@ == "invalid --flow-control "@ + f + ""@ + g,
                SpecError::NoDevice => s@ == "at least one -D / --device must be given"@ + f + ""@
                    + g,
                SpecError::DuplicateId(_) => s@ == "duplicate device id "@ + f
                    + " — use `id=path` form to disambiguate"@ + g,
            }
        }),
{
}

/// A slash or a `/.` at the end of a path is no part of its last name; a path
/// that ends in `..` has none and names its device itself.
pub proof fn law_id_from_odd_paths(
    path: &str,
    longer: &str,
    name: Seq<char>,
    dir: Seq<char>,
    a: String,
    b: String,
)
    requires
        call_ensures(derive_device_id, (path,), a),
        call_ensures(derive_device_id, (longer,), b),
        name.len() > 0 && !name.contains('/'),
        path@ == dir + seq!['/'] + name,
    ensures
        name != seq!['.'] && name != seq!['.', '.'] && (longer@ == path@ + seq!['/'] || longer@
            == path@ + seq!['/', '.']) ==> b@ == a@,
        name == seq!['.', '.'] && !starts_with(path@, "tty."@) && !starts_with(path@, "cu."@)
            ==> a@ == path@,
{
    let s = path@;
    let t = longer@;
    let n = dir.len() as int + 1;
    assert(s[n - 1] == '/');
    assert forall|k: int| n <= k < s.len() implies #[trigger] s[k] != '/' by {
        assert(s[k] == name[k - n]);
        assert(name.contains(name[k - n]));
    }
    lemma_last_component_at(s, n);
    assert(s.skip(n) =~= name);
    if t == s + seq!['/'] {
        let m = s.len() as int + 1;
        assert(t[m - 1] == '/');
        lemma_last_component_at(t, m);
        assert(t.skip(m) =~= Seq::<char>::empty());
        assert(t.take(m - 1) =~= s);
    }
    if t == s + seq!['/', '.'] {
        let m = s.len() as int + 1;
        assert(t[m - 1] == '/');
        lemma_last_component_at(t, m);
        assert(t.skip(m) =~= seq!['.']);
        assert(t.take(m - 1) =~= s);
    }
}

} // verus!
