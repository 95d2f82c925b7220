//! A texture definition file: its text format, its undo history, and the
//! in-memory state of an open file.
use vstd::prelude::*;
use vstd::string::*;
use crate::text::{ParseIntKind, push_str, decimal, is_whitespace, lemma_decimal_roundtrip, lemma_digits_untrimmed, newline_from, trim_end, trim_start, find_line_end, line_end, parse_unsigned, parse_unsigned_range, push_decimal, trim, trim_range};
use crate::util::{hash_of, single_hash};

verus! {

pub const DEFAULT_NAME: &'static str = "unnamed";

pub const FILE_LOCATION: &'static str = "textures";

pub const FILE_EXTENSION: &'static str = "rtex";

/// Identifier of a texture file, kept across renames.
pub type FileId = u128;

/// Why the header of a texture file could not be read.
#[derive(Debug, Clone, Copy, PartialEq, Eq, Structural)]
pub enum FileHeaderError {
    /// The first line is not the magic word.
    MissingMagic,
    /// The second line is not an unsigned 32-bit number.
    BadVersion(ParseIntKind),
    /// The version is not the one this library reads.
    UnsupportedVersion(u32),
    /// The third line is not an unsigned 128-bit number.
    BadId(ParseIntKind),
}

/// The magic word on the first line of every texture file.
pub open spec fn magic() -> Seq<char> {
    seq!['R', 'E', 'T', 'R', 'O', 'T', 'E', 'X']
}

/// The text of a texture file: the magic word, the format version and the file
/// id on a line each, then the JSON of the definition.
pub open spec fn file_text(id: u128, json: Seq<char>) -> Seq<char> {
    magic() + seq!['\n'] + decimal(crate::definition::TextureDefinition::VERSION as nat) + seq!['\n'] + decimal(id as nat) + seq![
        '\n',
    ] + json
}

/// What reading a texture file gives: its id and the JSON that follows the
/// three header lines. Each header line is read whole (with its line feed) and
/// trimmed before it is checked.
pub open spec fn parse_file_text(s: Seq<char>) -> Result<(u128, Seq<char>), FileHeaderError> {
    let e1 = line_end(s, 0);
    let e2 = line_end(s, e1);
    let e3 = line_end(s, e2);
    if trim(s.subrange(0, e1)) != magic() {
        Err(FileHeaderError::MissingMagic)
    } else {
        match parse_unsigned(trim(s.subrange(e1, e2)), u32::MAX as nat) {
            Err(k) => Err(FileHeaderError::BadVersion(k)),
            Ok(v) => if v != crate::definition::TextureDefinition::VERSION {
                Err(FileHeaderError::UnsupportedVersion(v as u32))
            } else {
                match parse_unsigned(trim(s.subrange(e2, e3)), u128::MAX as nat) {
                    Err(k) => Err(FileHeaderError::BadId(k)),
                    Ok(id) => Ok((id as u128, s.subrange(e3, s.len() as int))),
                }
            },
        }
    }
}

/// The text of an integer parse error (`ParseIntError`'s `Display`).
pub open spec fn parse_int_error_text(k: ParseIntKind) -> Seq<char> {
    match k {
        ParseIntKind::Empty => "cannot parse integer from empty string"@,
        ParseIntKind::InvalidDigit => "invalid digit found in string"@,
        ParseIntKind::PosOverflow => "number too large to fit in target type"@,
    }
}

/// The message that loading a file reports for each header error.
pub open spec fn header_error_text(e: FileHeaderError) -> Seq<char> {
    match e {
        FileHeaderError::MissingMagic => "Invalid file format: missing magic header"@,
        FileHeaderError::BadVersion(k) => "Failed to parse version: "@ + parse_int_error_text(k),
        FileHeaderError::UnsupportedVersion(v) => "Unsupported version: "@ + decimal(v as nat)
            + ", expected "@ + decimal(crate::definition::TextureDefinition::VERSION as nat),
        FileHeaderError::BadId(k) => "Failed to parse hash: "@ + parse_int_error_text(k),
    }
}

/// Whether `s[from..to]` is the magic word.
fn is_magic(s: &str, from: usize, to: usize) -> (r: bool)
    requires
        from <= to <= s@.len(),
    ensures
        r == (s@.subrange(from as int, to as int) == magic()),
{
    let m = "RETROTEX";
    proof {
        reveal_strlit("RETROTEX");
    }
    assert(m@ =~= magic());
    if to - from != 8 {
        return false;
    }
    let mut i: usize = 0;
    while i < 8
        invariant
            to - from == 8,
            to <= s@.len(),
            m@ == magic(),
            i <= 8,
            forall|j: int| 0 <= j < i ==> s@[from + j] == magic()[j],
        decreases 8 - i,
    {
        if s.get_char(from + i) != m.get_char(i) {
            assert(s@.subrange(from as int, to as int)[i as int] != magic()[i as int]);
            return false;
        }
        i += 1;
    }
    assert(s@.subrange(from as int, to as int) =~= magic());
    true
}

fn parse_int_error_string(out: &mut String, k: ParseIntKind)
    ensures
        final(out)@ == old(out)@ + parse_int_error_text(k),
{
    match k {
        ParseIntKind::Empty => {
            proof {
                reveal_strlit("cannot parse integer from empty string");
            }
            push_str(out, "cannot parse integer from empty string");
        },
        ParseIntKind::InvalidDigit => {
            proof {
                reveal_strlit("invalid digit found in string");
            }
            push_str(out, "invalid digit found in string");
        },
        ParseIntKind::PosOverflow => {
            proof {
                reveal_strlit("number too large to fit in target type");
            }
            push_str(out, "number too large to fit in target type");
        },
    }
}

impl FileHeaderError {
    /// The message that loading a file reports for this error.
    pub fn message(&self) -> (s: String)
        ensures
            s@ == header_error_text(*self),
    {
        let mut s = String::new();
        match *self {
            FileHeaderError::MissingMagic => {
                proof {
                    reveal_strlit("Invalid file format: missing magic header");
                }
                push_str(&mut s, "Invalid file format: missing magic header");
            },
            FileHeaderError::BadVersion(k) => {
                proof {
                    reveal_strlit("Failed to parse version: ");
                }
                push_str(&mut s, "Failed to parse version: ");
                parse_int_error_string(&mut s, k);
            },
            FileHeaderError::UnsupportedVersion(v) => {
                proof {
                    reveal_strlit("Unsupported version: ");
                    reveal_strlit(", expected ");
                }
                push_str(&mut s, "Unsupported version: ");
                push_decimal(&mut s, v as u128);
                push_str(&mut s, ", expected ");
                push_decimal(&mut s, crate::definition::TextureDefinition::VERSION as u128);
            },
            FileHeaderError::BadId(k) => {
                proof {
                    reveal_strlit("Failed to parse hash: ");
                }
                push_str(&mut s, "Failed to parse hash: ");
                parse_int_error_string(&mut s, k);
            },
        }
        assert(s@ =~= header_error_text(*self));
        s
    }
}

/// The text of a texture file with the given id and definition JSON.
pub fn file_contents(id: FileId, json: &str) -> (s: String)
    ensures
        s@ == file_text(id, json@),
{
    let mut s = String::new();
    proof {
        reveal_strlit("RETROTEX\n");
    }
    push_str(&mut s, "RETROTEX\n");
    push_decimal(&mut s, crate::definition::TextureDefinition::VERSION as u128);
    crate::color::string_push(&mut s, '\n');
    push_decimal(&mut s, id);
    crate::color::string_push(&mut s, '\n');
    push_str(&mut s, json);
    assert(s@ =~= file_text(id, json@));
    s
}

/// Reads the header of a texture file; gives its id and the JSON that follows.
pub fn parse_file_contents(content: &str) -> (r: Result<(FileId, String), FileHeaderError>)
    ensures
        match parse_file_text(content@) {
            Ok((id, json)) => r matches Ok((i, j)) && i == id && j@ == json,
            Err(e) => r == Err::<(FileId, String), FileHeaderError>(e),
        },
{
    let len = content.unicode_len();
    let e1 = find_line_end(content, 0);
    let (a, b) = trim_range(content, 0, e1);
    if !is_magic(content, a, b) {
        return Err(FileHeaderError::MissingMagic);
    }
    let e2 = find_line_end(content, e1);
    let (a, b) = trim_range(content, e1, e2);
    let version = match parse_unsigned_range(content, a, b, 0xffff_ffff) {
        Err(k) => {
            return Err(FileHeaderError::BadVersion(k));
        },
        Ok(v) => v,
    };
    if version != crate::definition::TextureDefinition::VERSION as u128 {
        return Err(FileHeaderError::UnsupportedVersion(version as u32));
    }
    let e3 = find_line_end(content, e2);
    let (a, b) = trim_range(content, e2, e3);
    let id = match parse_unsigned_range(content, a, b, u128::MAX) {
        Err(k) => {
            return Err(FileHeaderError::BadId(k));
        },
        Ok(v) => v,
    };
    let json = content.substring_char(e3, len).to_owned();
    Ok((id, json))
}

} // verus!

verus! {

proof fn lemma_newline_at(s: Seq<char>, from: int, k: int)
    requires
        0 <= from <= k < s.len(),
        s[k] == '\n',
        forall|i: int| from <= i < k ==> s[i] != '\n',
    ensures
        newline_from(s, from) == k,
        line_end(s, from) == k + 1,
    decreases k - from,
{
    if from < k {
        lemma_newline_at(s, from + 1, k);
    }
}

/// A line whose first and last characters are not whitespace, followed by a
/// line feed, trims to itself.
proof fn lemma_trim_line(d: Seq<char>)
    requires
        d.len() > 0,
        !is_whitespace(d[0]),
        !is_whitespace(d.last()),
    ensures
        trim(d.push('\n')) == d,
{
    assert(trim_start(d.push('\n')) == d.push('\n'));
    assert(d.push('\n').drop_last() =~= d);
    assert(is_whitespace(d.push('\n').last()));
    assert(trim_end(d.push('\n')) == trim_end(d));
}

/// Reading a texture file gives back the id and the JSON that were written
/// into it, whatever the JSON holds.
pub proof fn lemma_file_roundtrip(id: u128, json: Seq<char>)
    ensures
        parse_file_text(file_text(id, json)) == Ok::<(u128, Seq<char>), FileHeaderError>(
            (id, json),
        ),
{
    let s = file_text(id, json);
    let v = decimal(crate::definition::TextureDefinition::VERSION as nat);
    let d = decimal(id as nat);
    lemma_decimal_roundtrip(crate::definition::TextureDefinition::VERSION as nat, u32::MAX as nat);
    lemma_decimal_roundtrip(id as nat, u128::MAX as nat);
    lemma_digits_untrimmed(v);
    lemma_digits_untrimmed(d);
    let e1: int = 9;
    let e2: int = e1 + v.len() + 1;
    let e3: int = e2 + d.len() + 1;
    assert(s.subrange(0, e1) =~= magic().push('\n'));
    assert(s.subrange(e1, e2) =~= v.push('\n'));
    assert(s.subrange(e2, e3) =~= d.push('\n'));
    assert(s.subrange(e3, s.len() as int) =~= json);
    assert forall|i: int| 0 <= i < 8 implies s[i] != '\n' by {
        assert(s[i] == magic()[i]);
    }
    lemma_newline_at(s, 0, 8);
    assert forall|i: int| e1 <= i < e2 - 1 implies s[i] != '\n' by {
        assert(s[i] == v[i - e1]);
    }
    assert(s[e2 - 1] == '\n');
    lemma_newline_at(s, e1, e2 - 1);
    assert forall|i: int| e2 <= i < e3 - 1 implies s[i] != '\n' by {
        assert(s[i] == d[i - e2]);
    }
    assert(s[e3 - 1] == '\n');
    lemma_newline_at(s, e2, e3 - 1);
    lemma_trim_line(magic());
    lemma_trim_line(v);
    lemma_trim_line(d);
}

} // verus!

verus! {

/// Most states that the undo history keeps.
pub const UNDO_LIMIT: usize = 1000;

/// The abstract state of an undo history: the saved states, oldest first, and
/// the position just after the state that is current.
pub struct History {
    pub entries: Seq<Seq<char>>,
    pub index: nat,
}

/// A history that undo and redo can work on: the position lies within the
/// states and past the first one as soon as there is one.
pub open spec fn history_wf(h: History) -> bool {
    &&& h.index <= h.entries.len() <= UNDO_LIMIT
    &&& (h.entries.len() > 0 ==> h.index >= 1)
}

/// The state that the history is at.
pub open spec fn history_current(h: History) -> Seq<char> {
    h.entries[h.index - 1]
}

/// Recording a new state: the states that could be redone are dropped, the new
/// one becomes current, and the oldest is forgotten beyond the limit.
pub open spec fn history_push(h: History, s: Seq<char>) -> History {
    let kept = h.entries.take(h.index as int).push(s);
    if kept.len() > UNDO_LIMIT {
        History { entries: kept.skip(kept.len() - UNDO_LIMIT), index: UNDO_LIMIT as nat }
    } else {
        History { entries: kept, index: kept.len() }
    }
}

/// Stepping back: gives the state before the current one, if there is one.
pub open spec fn history_undo(h: History) -> (Option<Seq<char>>, History) {
    if h.index <= 1 {
        (None, h)
    } else {
        (Some(h.entries[h.index - 2]), History { entries: h.entries, index: (h.index - 1) as nat })
    }
}

/// Stepping forward: gives the state after the current one, if one was undone.
pub open spec fn history_redo(h: History) -> (Option<Seq<char>>, History) {
    if h.index >= h.entries.len() {
        (None, h)
    } else {
        (Some(h.entries[h.index as int]), History { entries: h.entries, index: h.index + 1 })
    }
}

/// The text of an optional string.
pub open spec fn opt_text(r: Option<String>) -> Option<Seq<char>> {
    match r {
        Some(s) => Some(s@),
        None => None,
    }
}

/// The undo history of a texture file: the JSON of each saved state.
#[derive(Debug)]
pub struct UndoStack {
    undo_stack: Vec<String>,
    redo_index: usize,
}

impl View for UndoStack {
    type V = History;

    closed spec fn view(&self) -> History {
        History { entries: self.undo_stack@.map_values(|s: String| s@), index: self.redo_index as nat }
    }
}

impl UndoStack {
    #[verifier::type_invariant]
    closed spec fn inv(self) -> bool {
        history_wf(self@)
    }

    pub fn new() -> (u: Self)
        ensures
            u@.entries.len() == 0,
            u@.index == 0,
            history_wf(u@),
    {
        Self { undo_stack: Vec::new(), redo_index: 0 }
    }

    /// Recording a state: see `history_push`. The history is well formed afterwards.
    pub fn push(&mut self, json_content: String)
        ensures
            final(self)@ == history_push(old(self)@, json_content@),
            history_wf(final(self)@),
    {
        proof {
            use_type_invariant(&*self);
        }
        let ghost h = self@;
        let ghost kept = h.entries.take(h.index as int).push(json_content@);
        let mut taken = UndoStack::new();
        core::mem::swap(&mut taken, self);
        let UndoStack { undo_stack: mut stack, redo_index: old_index } = taken;
        if old_index < stack.len() {
            stack.truncate(old_index);
        }
        stack.push(json_content);
        assert(stack@.map_values(|s: String| s@) =~= kept);
        let mut index = stack.len();
        while stack.len() > UNDO_LIMIT
            invariant
                index == stack.len(),
                stack.len() <= kept.len(),
                kept.len() > UNDO_LIMIT ==> stack.len() >= UNDO_LIMIT,
                kept.len() <= UNDO_LIMIT ==> stack.len() == kept.len(),
                stack@.map_values(|s: String| s@) == kept.skip(kept.len() - stack.len()),
            decreases stack.len(),
        {
            let ghost before = stack@.map_values(|s: String| s@);
            stack.remove(0);
            index -= 1;
            assert(stack@.map_values(|s: String| s@) =~= before.drop_first());
            assert(before.drop_first() =~= kept.skip(kept.len() - stack.len()));
        }
        assert(kept.skip(0) =~= kept);
        assert(h == old(self)@);
        assert(kept.len() > UNDO_LIMIT ==> stack.len() == UNDO_LIMIT);
        *self = UndoStack { undo_stack: stack, redo_index: index };

    }

    /// Steps back and gives the JSON of the state that is now current.
    pub fn undo(&mut self) -> (r: Option<String>)
        ensures
            (opt_text(r), final(self)@) == history_undo(old(self)@),
            history_wf(final(self)@),
    {
        proof {
            use_type_invariant(&*self);
        }
        if self.redo_index <= 1 {
            return None;
        }
        self.redo_index -= 1;
        let content = self.undo_stack[self.redo_index - 1].clone();
        assert(self@.entries =~= old(self)@.entries);
        Some(content)
    }

    /// Steps forward and gives the JSON of the state that is now current.
    pub fn redo(&mut self) -> (r: Option<String>)
        ensures
            (opt_text(r), final(self)@) == history_redo(old(self)@),
            history_wf(final(self)@),
    {
        proof {
            use_type_invariant(&*self);
        }
        if self.redo_index >= self.undo_stack.len() {
            return None;
        }
        let content = self.undo_stack[self.redo_index].clone();
        self.redo_index += 1;
        assert(self@.entries =~= old(self)@.entries);
        Some(content)
    }
}

} // verus!

verus! {

/// Recording a state makes it current, leaves nothing to redo and keeps the
/// history within its limit.
pub proof fn lemma_push_makes_current(h: History, s: Seq<char>)
    requires
        h.index <= h.entries.len(),
    ensures
        history_wf(history_push(h, s)),
        history_current(history_push(h, s)) == s,
        history_redo(history_push(h, s)).0 is None,
{
}

/// Undo right after two recordings gives back the first of them.
pub proof fn lemma_undo_after_push(h: History, first: Seq<char>, second: Seq<char>)
    requires
        h.index <= h.entries.len(),
    ensures
        history_undo(history_push(history_push(h, first), second)).0 == Some(first),
        history_current(history_undo(history_push(history_push(h, first), second)).1) == first,
{
}

/// What undo or redo gives is the state that is current afterwards.
pub proof fn lemma_step_gives_current(h: History)
    requires
        history_wf(h),
    ensures
        history_undo(h).0 matches Some(s) ==> s == history_current(history_undo(h).1),
        history_redo(h).0 matches Some(s) ==> s == history_current(history_redo(h).1),
{
}

/// Redo after a successful undo returns to the state before the undo, and
/// undo after a successful redo does too.
pub proof fn lemma_undo_redo_inverse(h: History)
    requires
        history_wf(h),
    ensures
        history_undo(h).0 is Some ==> history_redo(history_undo(h).1) == (
            Some(history_current(h)),
            h,
        ),
        history_redo(h).0 is Some ==> history_undo(history_redo(h).1) == (
            Some(history_current(h)),
            h,
        ),
{
}

} // verus!

verus! {

/// How long, in milliseconds, an unsaved change waits before it is saved.
pub const AUTO_SAVE_DELAY_MILLIS: u64 = 200;

/// Whether the open file is to be saved now: it changed or was renamed, and
/// the window is closing or the last change is old enough.
pub fn autosave_due(dirty: bool, renamed: bool, closing: bool, elapsed_ms: u64) -> (r: bool)
    ensures
        r == ((dirty || renamed) && (closing || elapsed_ms >= AUTO_SAVE_DELAY_MILLIS)),
{
    (dirty || renamed) && (closing || elapsed_ms >= AUTO_SAVE_DELAY_MILLIS)
}

/// What a rename asks for before any file is touched.
#[derive(Debug, Clone, Copy, PartialEq, Eq, Structural)]
pub enum RenameCheck {
    /// The new name is empty: refused.
    Empty,
    /// The new name is the current one: nothing to do.
    Unchanged,
    /// The file is to be moved to the new name.
    Proceed,
}

/// A definition together with its hash, `single_hash` of it.
struct HashedDefinition {
    def: crate::definition::TextureDefinition,
    hash: u64,
}

impl HashedDefinition {
    #[verifier::type_invariant]
    closed spec fn inv(&self) -> bool {
        self.hash == hash_of(&self.def)
    }

    /// Hashes the definition and keeps both.
    fn new(def: crate::definition::TextureDefinition) -> (h: Self)
        ensures
            h.def == def,
    {
        let hash = single_hash(&def);
        Self { def, hash }
    }
}

/// An open texture file: its definition with the hash of it, the hash as
/// last saved, and its undo history.
pub struct DefinitionFile {
    id: FileId,
    name: String,
    current: HashedDefinition,
    saved_hash: u64,
    undo: UndoStack,
}

impl DefinitionFile {
    pub closed spec fn spec_id(&self) -> FileId {
        self.id
    }

    pub closed spec fn spec_name(&self) -> Seq<char> {
        self.name@
    }

    /// The hash of the current definition, as `single_hash` gives it.
    pub open spec fn spec_hash(&self) -> u64 {
        hash_of(&self.spec_def())
    }

    pub closed spec fn spec_saved_hash(&self) -> u64 {
        self.saved_hash
    }

    pub closed spec fn history(&self) -> History {
        self.undo@
    }

    pub closed spec fn spec_def(&self) -> crate::definition::TextureDefinition {
        self.current.def
    }

    /// The definition changed since it was last saved.
    pub open spec fn dirty(&self) -> bool {
        self.spec_hash() != self.spec_saved_hash()
    }

    /// A new, unsaved file with an empty definition and a random id.
    pub fn new(name: String) -> (f: Self)
        ensures
            f.spec_name() == name@,
            f.spec_saved_hash() == 0,
            f.spec_def().passes.len() == 0,
            f.spec_def().ao_settings.radius == 4,
            f.spec_def().ao_settings.strength == 50,
            f.spec_def().ao_settings.bias == 50,
            !f.spec_def().ao_settings.ignore_surface_normal,
            f.spec_def().lighting_settings.direction@ == seq![10i32, -50i32, 20i32],
            f.spec_def().lighting_settings.impact == 50,
            f.history().entries.len() == 0,
            f.history().index == 0,
    {
        Self::new_with_def(name, crate::definition::TextureDefinition::default())
    }

    /// A new, unsaved file with the given definition and a random id.
    pub fn new_with_def(name: String, def: crate::definition::TextureDefinition) -> (f: Self)
        ensures
            f.spec_name() == name@,
            f.spec_def() == def,
            f.spec_saved_hash() == 0,
            f.history().entries.len() == 0,
            f.history().index == 0,
    {
        Self::new_with_def_and_id(name, def, crate::rng::random_u128(), false)
    }

    /// A file with the given definition and id, counted as saved when it was
    /// just read from disk.
    pub fn new_with_def_and_id(
        name: String,
        def: crate::definition::TextureDefinition,
        id: u128,
        is_saved: bool,
    ) -> (f: Self)
        ensures
            f.spec_id() == id,
            f.spec_name() == name@,
            f.spec_def() == def,
            f.spec_saved_hash() == if is_saved {
                f.spec_hash()
            } else {
                0
            },
            f.history().entries.len() == 0,
            f.history().index == 0,
    {
        let current = HashedDefinition::new(def);
        proof {
            use_type_invariant(&current);
        }
        let saved_hash = if is_saved {
            current.hash
        } else {
            0
        };
        Self { id, name, current, saved_hash, undo: UndoStack::new() }
    }

    /// The file `name` as it was loaded, or, when loading failed, a new file
    /// of that name holding the demo texture; the flag tells that the new file
    /// is to be saved.
    pub fn load_by_name_or_create(name: &str, loaded: Result<DefinitionFile, String>) -> (r: (
        DefinitionFile,
        bool,
    ))
        ensures
            match loaded {
                Ok(f) => r.0 == f && !r.1,
                Err(_) => {
                    &&& r.0.spec_name() == name@
                    &&& crate::definition::is_demo_definition(r.0.spec_def())
                    &&& r.0.spec_saved_hash() == 0
                    &&& r.0.history().entries.len() == 0
                    &&& r.0.history().index == 0
                    &&& r.1
                },
            },
    {
        match loaded {
            Ok(f) => (f, false),
            Err(_) => {
                let def = crate::definition::TextureDefinition::demo();
                (Self::new_with_def(name.to_owned(), def), true)
            },
        }
    }

    pub fn name(&self) -> (r: &str)
        ensures
            r@ == self.spec_name(),
    {
        self.name.as_str()
    }

    pub fn id(&self) -> (r: u128)
        ensures
            r == self.spec_id(),
    {
        self.id
    }

    pub fn definition_hash(&self) -> (r: u64)
        ensures
            r == self.spec_hash(),
    {
        proof {
            use_type_invariant(&self.current);
        }
        self.current.hash
    }

    pub fn def(&self) -> (r: &crate::definition::TextureDefinition)
        ensures
            *r == self.spec_def(),
    {
        &self.current.def
    }

    /// Replaces the definition with the edited one and its hash with
    /// `single_hash` of it; tells whether the hash changed.
    pub fn modify_definition(&mut self, def: crate::definition::TextureDefinition) -> (changed:
        bool)
        ensures
            final(self).spec_def() == def,
            changed == (hash_of(&def) != old(self).spec_hash()),
            final(self).dirty() == (hash_of(&def) != old(self).spec_saved_hash()),
            final(self).spec_id() == old(self).spec_id(),
            final(self).spec_name() == old(self).spec_name(),
            final(self).spec_saved_hash() == old(self).spec_saved_hash(),
            final(self).history() == old(self).history(),
    {
        proof {
            use_type_invariant(&self.current);
        }
        let prev_hash = self.current.hash;
        self.current = HashedDefinition::new(def);
        proof {
            use_type_invariant(&self.current);
        }
        prev_hash != self.current.hash
    }

    /// Whether the definition changed since it was last saved.
    pub fn is_dirty(&self) -> (r: bool)
        ensures
            r == self.dirty(),
    {
        proof {
            use_type_invariant(&self.current);
        }
        self.current.hash != self.saved_hash
    }

    /// The file's text, its definition given as JSON.
    pub fn file_contents(&self, json: &str) -> (s: String)
        ensures
            s@ == file_text(self.spec_id(), json@),
    {
        file_contents(self.id, json)
    }

    /// Records that the definition, as the given JSON, was written to disk: it
    /// becomes the current state of the undo history and the file is clean.
    pub fn mark_saved(&mut self, json_content: String)
        ensures
            final(self).history() == history_push(old(self).history(), json_content@),
            final(self).spec_saved_hash() == old(self).spec_hash(),
            final(self).spec_hash() == old(self).spec_hash(),
            !final(self).dirty(),
            final(self).spec_def() == old(self).spec_def(),
            final(self).spec_id() == old(self).spec_id(),
            final(self).spec_name() == old(self).spec_name(),
    {
        let mut undo = UndoStack::new();
        core::mem::swap(&mut undo, &mut self.undo);
        undo.push(json_content);
        self.undo = undo;
        proof {
            use_type_invariant(&self.current);
        }
        self.saved_hash = self.current.hash;
    }

    /// What renaming the file to `new_name` asks for.
    pub fn check_rename(&self, new_name: &str) -> (r: RenameCheck)
        ensures
            r == if new_name@.len() == 0 {
                RenameCheck::Empty
            } else if new_name@ == self.spec_name() {
                RenameCheck::Unchanged
            } else {
                RenameCheck::Proceed
            },
    {
        if new_name.is_empty() {
            return RenameCheck::Empty;
        }
        if crate::text::str_eq(self.name.as_str(), new_name) {
            RenameCheck::Unchanged
        } else {
            RenameCheck::Proceed
        }
    }

    /// Takes the new name once the file has been moved.
    pub fn set_name(&mut self, new_name: &str)
        ensures
            final(self).spec_name() == new_name@,
            final(self).spec_id() == old(self).spec_id(),
            final(self).spec_def() == old(self).spec_def(),
            final(self).spec_hash() == old(self).spec_hash(),
            final(self).spec_saved_hash() == old(self).spec_saved_hash(),
            final(self).history() == old(self).history(),
    {
        self.name = new_name.to_owned();
    }

    /// Steps the history forward; gives the JSON of the state to restore.
    pub fn redo(&mut self) -> (r: Option<String>)
        ensures
            (opt_text(r), final(self).history()) == history_redo(old(self).history()),
            final(self).spec_def() == old(self).spec_def(),
            final(self).spec_hash() == old(self).spec_hash(),
            final(self).spec_saved_hash() == old(self).spec_saved_hash(),
            final(self).spec_id() == old(self).spec_id(),
            final(self).spec_name() == old(self).spec_name(),
    {
        let mut undo = UndoStack::new();
        core::mem::swap(&mut undo, &mut self.undo);
        let r = undo.redo();
        self.undo = undo;
        r
    }

    /// Steps the history back; gives the JSON of the state to restore.
    pub fn undo(&mut self) -> (r: Option<String>)
        ensures
            (opt_text(r), final(self).history()) == history_undo(old(self).history()),
            final(self).spec_def() == old(self).spec_def(),
            final(self).spec_hash() == old(self).spec_hash(),
            final(self).spec_saved_hash() == old(self).spec_saved_hash(),
            final(self).spec_id() == old(self).spec_id(),
            final(self).spec_name() == old(self).spec_name(),
    {
        let mut undo = UndoStack::new();
        core::mem::swap(&mut undo, &mut self.undo);
        let r = undo.undo();
        self.undo = undo;
        r
    }

    /// Puts back a definition read from the history, with `single_hash` of
    /// it as the current hash; the undo history stays where it is.
    pub fn restore(&mut self, def: crate::definition::TextureDefinition)
        ensures
            final(self).spec_def() == def,
            final(self).dirty() == (hash_of(&def) != old(self).spec_saved_hash()),
            final(self).spec_saved_hash() == old(self).spec_saved_hash(),
            final(self).spec_id() == old(self).spec_id(),
            final(self).spec_name() == old(self).spec_name(),
            final(self).history() == old(self).history(),
    {
        self.current = HashedDefinition::new(def);
    }
}

} // verus!
