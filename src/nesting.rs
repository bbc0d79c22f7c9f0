//! How deeply a TOML document nests, measured by one pass over its text.
//!
//! The pass follows the TOML reader's own lexing: strings (basic, literal and
//! multi-line, with escapes) and comments hide their characters, and a table
//! header line is read raw up to its end, as the reader skips it. Outside
//! those, each open array or inline table counts one level, and so does each
//! `.` of a key: from where it stands until the next `,` or the end of its
//! array, inline table or statement. A `.` in a value counts likewise until
//! the next `,`, bracket or `=`. The depth of the current table header (one
//! level, and one for each `.`, `[` or `{` on its line) stays counted until
//! the next header.

use vstd::prelude::*;
use vstd::std_specs::iter::IteratorSpec;

verus! {

/// The deepest nesting a document may reach.
pub const MAX_DEPTH: u64 = 128;

/// Where the pass stands in the lexical structure. The flag tells a basic
/// string (`"`) from a literal one (`'`).
#[derive(Copy, Clone, Debug, PartialEq, Eq, Structural)]
pub enum Lex {
    Normal,
    Comment,
    HeaderLine,
    /// One quote seen where a string begins.
    Open1(bool),
    /// Two quotes seen where a string begins.
    Open2(bool),
    Single(bool),
    SingleEscape,
    Multi(bool),
    MultiEscape,
    /// One quote seen inside a multi-line string.
    MultiQuote1(bool),
    /// Two quotes seen inside a multi-line string.
    MultiQuote2(bool),
    /// A multi-line string just closed; one more quote may belong to it.
    Closed1(bool),
    /// A multi-line string just closed, with one extra quote; one more may belong to it.
    Closed2(bool),
}

pub struct ScanState {
    pub lex: Lex,
    /// The current line holds a key or value (not only blanks and comments).
    pub started: bool,
    pub header: nat,
    pub nested: nat,
    pub pending: nat,
    /// For each open array or inline table, `nested` as it was before it opened.
    pub levels: Seq<nat>,
}

pub open spec fn quote(basic: bool) -> char {
    if basic { '"' } else { '\'' }
}

pub open spec fn initial_scan() -> ScanState {
    ScanState { lex: Lex::Normal, started: false, header: 0, nested: 0, pending: 0, levels: seq![] }
}

/// The level a scan state stands at.
pub open spec fn depth_of(st: ScanState) -> nat {
    st.header + st.nested + st.pending
}

/// One character read outside strings and comments.
pub open spec fn normal_step(st: ScanState, c: char) -> ScanState {
    if !st.started && (c == ' ' || c == '\t' || c == '\n') {
        st
    } else if !st.started && c == '#' {
        ScanState { lex: Lex::Comment, ..st }
    } else if !st.started && c == '[' {
        ScanState { lex: Lex::HeaderLine, header: 1, ..st }
    } else {
        let st = ScanState { started: true, ..st };
        if c == '"' {
            ScanState { lex: Lex::Open1(true), ..st }
        } else if c == '\'' {
            ScanState { lex: Lex::Open1(false), ..st }
        } else if c == '#' {
            ScanState { lex: Lex::Comment, ..st }
        } else if c == '.' {
            ScanState { pending: st.pending + 1, ..st }
        } else if c == '=' {
            ScanState { nested: st.nested + st.pending, pending: 0, ..st }
        } else if c == ',' {
            if st.levels.len() > 0 {
                ScanState { nested: st.levels.last() + 1, pending: 0, ..st }
            } else {
                ScanState { pending: 0, ..st }
            }
        } else if c == '[' || c == '{' {
            ScanState { nested: st.nested + 1, pending: 0, levels: st.levels.push(st.nested), ..st }
        } else if c == ']' || c == '}' {
            if st.levels.len() > 0 {
                ScanState { nested: st.levels.last(), pending: 0, levels: st.levels.drop_last(), ..st }
            } else {
                ScanState { pending: 0, ..st }
            }
        } else if c == '\n' && st.levels.len() == 0 {
            ScanState { started: false, nested: 0, pending: 0, ..st }
        } else {
            st
        }
    }
}

/// One character inside a single-line string.
pub open spec fn single_step(st: ScanState, basic: bool, c: char) -> ScanState {
    if basic && c == '\\' {
        ScanState { lex: Lex::SingleEscape, ..st }
    } else if c == quote(basic) {
        ScanState { lex: Lex::Normal, ..st }
    } else if c == '\n' {
        normal_step(ScanState { lex: Lex::Normal, ..st }, c)
    } else {
        ScanState { lex: Lex::Single(basic), ..st }
    }
}

/// One character inside a multi-line string.
pub open spec fn multi_step(st: ScanState, basic: bool, c: char) -> ScanState {
    if basic && c == '\\' {
        ScanState { lex: Lex::MultiEscape, ..st }
    } else if c == quote(basic) {
        ScanState { lex: Lex::MultiQuote1(basic), ..st }
    } else {
        ScanState { lex: Lex::Multi(basic), ..st }
    }
}

/// The scan state after one more character.
pub open spec fn scan_step(st: ScanState, c: char) -> ScanState {
    match st.lex {
        Lex::Normal => normal_step(st, c),
        Lex::Comment => if c == '\t' || c >= ' ' {
            st
        } else {
            normal_step(ScanState { lex: Lex::Normal, ..st }, c)
        },
        Lex::HeaderLine => if c == '\n' {
            ScanState { lex: Lex::Normal, started: false, nested: 0, pending: 0, ..st }
        } else if c == '.' || c == '[' || c == '{' {
            ScanState { header: st.header + 1, ..st }
        } else {
            st
        },
        Lex::Open1(b) => if c == quote(b) {
            ScanState { lex: Lex::Open2(b), ..st }
        } else {
            single_step(st, b, c)
        },
        Lex::Open2(b) => if c == quote(b) {
            ScanState { lex: Lex::Multi(b), ..st }
        } else {
            normal_step(ScanState { lex: Lex::Normal, ..st }, c)
        },
        Lex::Single(b) => single_step(st, b, c),
        Lex::SingleEscape => ScanState { lex: Lex::Single(true), ..st },
        Lex::Multi(b) => multi_step(st, b, c),
        Lex::MultiEscape => ScanState { lex: Lex::Multi(true), ..st },
        Lex::MultiQuote1(b) => if c == quote(b) {
            ScanState { lex: Lex::MultiQuote2(b), ..st }
        } else {
            multi_step(st, b, c)
        },
        Lex::MultiQuote2(b) => if c == quote(b) {
            ScanState { lex: Lex::Closed1(b), ..st }
        } else {
            multi_step(st, b, c)
        },
        Lex::Closed1(b) => if c == quote(b) {
            ScanState { lex: Lex::Closed2(b), ..st }
        } else {
            normal_step(ScanState { lex: Lex::Normal, ..st }, c)
        },
        Lex::Closed2(b) => if c == quote(b) {
            ScanState { lex: Lex::Normal, ..st }
        } else {
            normal_step(ScanState { lex: Lex::Normal, ..st }, c)
        },
    }
}

/// The scan state after reading `s`.
pub open spec fn scan(s: Seq<char>) -> ScanState
    decreases s.len(),
{
    if s.len() == 0 {
        initial_scan()
    } else {
        scan_step(scan(s.drop_last()), s.last())
    }
}

/// The deepest level reached while reading `s`.
pub open spec fn peak_depth(s: Seq<char>) -> nat
    decreases s.len(),
{
    if s.len() == 0 {
        depth_of(initial_scan())
    } else {
        let before = peak_depth(s.drop_last());
        let now = depth_of(scan(s));
        if now > before { now } else { before }
    }
}

/// A prefix reaches no deeper than the whole.
proof fn lemma_peak_prefix(s: Seq<char>, p: Seq<char>)
    requires
        p.len() <= s.len(),
        p == s.subrange(0, p.len() as int),
    ensures
        peak_depth(p) <= peak_depth(s),
    decreases s.len(),
{
    if s.len() > p.len() {
        assert(s.drop_last().subrange(0, p.len() as int) =~= p);
        lemma_peak_prefix(s.drop_last(), p);
    } else {
        assert(p =~= s);
    }
}

struct Scanner {
    lex: Lex,
    started: bool,
    header: u64,
    nested: u64,
    pending: u64,
    levels: Vec<u64>,
}

impl Scanner {
    spec fn view(&self) -> ScanState {
        ScanState {
            lex: self.lex,
            started: self.started,
            header: self.header as nat,
            nested: self.nested as nat,
            pending: self.pending as nat,
            levels: self.levels@.map_values(|v: u64| v as nat),
        }
    }

    spec fn within_bound(&self) -> bool {
        &&& self.header + self.nested + self.pending <= MAX_DEPTH
        &&& forall|i: int| 0 <= i < self.levels@.len() ==> self.levels@[i] <= MAX_DEPTH
    }

    fn normal(&mut self, c: char)
        requires
            old(self).within_bound(),
        ensures
            final(self).view() == normal_step(old(self).view(), c),
            forall|i: int| 0 <= i < final(self).levels@.len() ==> final(self).levels@[i] <= MAX_DEPTH,
            final(self).header <= MAX_DEPTH + 1,
            final(self).nested <= MAX_DEPTH + 1,
            final(self).pending <= MAX_DEPTH + 1,
    {
        if !self.started && (c == ' ' || c == '\t' || c == '\n') {
        } else if !self.started && c == '#' {
            self.lex = Lex::Comment;
        } else if !self.started && c == '[' {
            self.lex = Lex::HeaderLine;
            self.header = 1;
        } else {
            self.started = true;
            if c == '"' {
                self.lex = Lex::Open1(true);
            } else if c == '\'' {
                self.lex = Lex::Open1(false);
            } else if c == '#' {
                self.lex = Lex::Comment;
            } else if c == '.' {
                self.pending = self.pending + 1;
            } else if c == '=' {
                self.nested = self.nested + self.pending;
                self.pending = 0;
            } else if c == ',' {
                if self.levels.len() > 0 {
                    self.nested = self.levels[self.levels.len() - 1] + 1;
                }
                self.pending = 0;
            } else if c == '[' || c == '{' {
                self.levels.push(self.nested);
                self.nested = self.nested + 1;
                self.pending = 0;
            } else if c == ']' || c == '}' {
                if self.levels.len() > 0 {
                    self.nested = self.levels.pop().unwrap();
                }
                self.pending = 0;
            } else if c == '\n' && self.levels.len() == 0 {
                self.started = false;
                self.nested = 0;
                self.pending = 0;
            }
        }
        proof {
            assert(self.levels@.map_values(|v: u64| v as nat) =~= normal_step(old(self).view(), c).levels);
        }
    }

    fn single(&mut self, basic: bool, c: char)
        requires
            old(self).within_bound(),
        ensures
            final(self).view() == single_step(old(self).view(), basic, c),
            forall|i: int| 0 <= i < final(self).levels@.len() ==> final(self).levels@[i] <= MAX_DEPTH,
            final(self).header <= MAX_DEPTH + 1,
            final(self).nested <= MAX_DEPTH + 1,
            final(self).pending <= MAX_DEPTH + 1,
    {
        if basic && c == '\\' {
            self.lex = Lex::SingleEscape;
        } else if c == (if basic { '"' } else { '\'' }) {
            self.lex = Lex::Normal;
        } else if c == '\n' {
            self.lex = Lex::Normal;
            self.normal(c);
        } else {
            self.lex = Lex::Single(basic);
        }
    }

    fn multi(&mut self, basic: bool, c: char)
        requires
            old(self).within_bound(),
        ensures
            final(self).view() == multi_step(old(self).view(), basic, c),
            final(self).levels@ == old(self).levels@,
            final(self).header == old(self).header,
            final(self).nested == old(self).nested,
            final(self).pending == old(self).pending,
    {
        if basic && c == '\\' {
            self.lex = Lex::MultiEscape;
        } else if c == (if basic { '"' } else { '\'' }) {
            self.lex = Lex::MultiQuote1(basic);
        } else {
            self.lex = Lex::Multi(basic);
        }
    }

    fn step(&mut self, c: char)
        requires
            old(self).within_bound(),
        ensures
            final(self).view() == scan_step(old(self).view(), c),
            forall|i: int| 0 <= i < final(self).levels@.len() ==> final(self).levels@[i] <= MAX_DEPTH,
            final(self).header <= MAX_DEPTH + 1,
            final(self).nested <= MAX_DEPTH + 1,
            final(self).pending <= MAX_DEPTH + 1,
    {
        match self.lex {
            Lex::Normal => self.normal(c),
            Lex::Comment => {
                if !(c == '\t' || c >= ' ') {
                    self.lex = Lex::Normal;
                    self.normal(c);
                }
            },
            Lex::HeaderLine => {
                if c == '\n' {
                    self.lex = Lex::Normal;
                    self.started = false;
                    self.nested = 0;
                    self.pending = 0;
                } else if c == '.' || c == '[' || c == '{' {
                    self.header = self.header + 1;
                }
            },
            Lex::Open1(b) => {
                if c == (if b { '"' } else { '\'' }) {
                    self.lex = Lex::Open2(b);
                } else {
                    self.single(b, c);
                }
            },
            Lex::Open2(b) => {
                if c == (if b { '"' } else { '\'' }) {
                    self.lex = Lex::Multi(b);
                } else {
                    self.lex = Lex::Normal;
                    self.normal(c);
                }
            },
            Lex::Single(b) => self.single(b, c),
            Lex::SingleEscape => {
                self.lex = Lex::Single(true);
            },
            Lex::Multi(b) => self.multi(b, c),
            Lex::MultiEscape => {
                self.lex = Lex::Multi(true);
            },
            Lex::MultiQuote1(b) => {
                if c == (if b { '"' } else { '\'' }) {
                    self.lex = Lex::MultiQuote2(b);
                } else {
                    self.multi(b, c);
                }
            },
            Lex::MultiQuote2(b) => {
                if c == (if b { '"' } else { '\'' }) {
                    self.lex = Lex::Closed1(b);
                } else {
                    self.multi(b, c);
                }
            },
            Lex::Closed1(b) => {
                if c == (if b { '"' } else { '\'' }) {
                    self.lex = Lex::Closed2(b);
                } else {
                    self.lex = Lex::Normal;
                    self.normal(c);
                }
            },
            Lex::Closed2(b) => {
                self.lex = Lex::Normal;
                if c != (if b { '"' } else { '\'' }) {
                    self.normal(c);
                }
            },
        }
    }
}

/// Whether `s` nests deeper than a document may.
pub fn too_deep(s: &str) -> (r: bool)
    ensures
        r == (peak_depth(s@) > MAX_DEPTH),
{
    broadcast use vstd::string::group_string_axioms;

    let mut scanner = Scanner {
        lex: Lex::Normal,
        started: false,
        header: 0,
        nested: 0,
        pending: 0,
        levels: Vec::new(),
    };
    proof {
        assert(scanner.view().levels =~= initial_scan().levels);
    }
    let mut chars = s.chars();
    let ghost mut seen: Seq<char> = Seq::empty();
    loop
        invariant
            seen + chars.remaining() == s@,
            scanner.view() == scan(seen),
            scanner.within_bound(),
            peak_depth(seen) <= MAX_DEPTH,
            chars.decrease() is Some,
        decreases chars.decrease()->0,
    {
        let ghost before = chars.remaining();
        match chars.next() {
            None => {
                assert(seen =~= s@);
                return false;
            },
            Some(c) => {
                scanner.step(c);
                proof {
                    assert(seen.push(c).drop_last() =~= seen);
                    assert(seen.push(c) + chars.remaining() =~= s@) by {
                        assert(before =~= seq![c] + before.drop_first());
                    }
                    seen = seen.push(c);
                }
                if scanner.header + scanner.nested + scanner.pending > MAX_DEPTH {
                    proof {
                        assert(seen =~= s@.subrange(0, seen.len() as int));
                        lemma_peak_prefix(s@, seen);
                    }
                    return true;
                }
            },
        }
    }
}

} // verus!
