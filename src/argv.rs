//! Reconstruction of a tracee's argument vector and the report line.
//!
//! The tracer can only read the tracee's memory one word at a time. An
//! argument vector is a zero-terminated table of pointers, each to a
//! NUL-terminated byte string; [`ArgvReader`] asks for one word after the
//! other and rebuilds the strings from what it is handed.

use vstd::prelude::*;
use crate::ptrace::{Word, WORD_BYTES};

verus! {

/// Byte `i` (0 = least significant) of a word.
pub open spec fn word_byte(w: Word, i: int) -> u8 {
    ((w >> (8 * i)) & 0xff) as u8
}

/// The bytes of a word in memory order (little-endian).
pub open spec fn le_bytes(w: Word) -> Seq<u8> {
    Seq::new(8, |i: int| word_byte(w, i))
}

/// The bytes of `s` before its first NUL (all of `s` if it has none).
pub open spec fn cstr_prefix(s: Seq<u8>) -> Seq<u8>
    decreases s.len(),
{
    if s.len() == 0 {
        s
    } else if s[0] == 0 {
        Seq::empty()
    } else {
        seq![s[0]] + cstr_prefix(s.drop_first())
    }
}

/// If `i` is the index of the first NUL of `s` (or its length when it has
/// none), the C-string prefix of `s` is its first `i` bytes.
pub proof fn lemma_cstr_prefix(s: Seq<u8>, i: int)
    requires
        0 <= i <= s.len(),
        forall|j: int| 0 <= j < i ==> s[j] != 0,
        i == s.len() || s[i] == 0,
    ensures
        cstr_prefix(s) == s.take(i),
        s.contains(0) <==> i < s.len(),
    decreases s.len(),
{
    if s.len() > 0 && i > 0 {
        lemma_cstr_prefix(s.drop_first(), i - 1);
        assert(s.take(i) =~= seq![s[0]] + s.drop_first().take(i - 1));
        if s.drop_first().contains(0) {
            let j = choose|j: int| 0 <= j < s.drop_first().len() && s.drop_first()[j] == 0;
            assert(s[j + 1] == 0);
        }
        if s.contains(0) {
            let j = choose|j: int| 0 <= j < s.len() && s[j] == 0;
            assert(s.drop_first()[j - 1] == 0);
        }
    } else if s.len() > 0 {
        assert(s.take(0) =~= Seq::<u8>::empty());
        assert(s[0] == 0);
    } else {
        assert(s.take(0) =~= s);
    }
}

/// Appends to `buf` the bytes of `word` that come before its first NUL, and
/// returns whether the word holds a NUL.
pub fn append_word_text(buf: &mut Vec<u8>, word: Word) -> (found_nul: bool)
    ensures
        final(buf)@ == old(buf)@ + cstr_prefix(le_bytes(word)),
        found_nul == le_bytes(word).contains(0),
{
    let ghost bytes = le_bytes(word);
    let mut i: u64 = 0;
    while i < WORD_BYTES
        invariant
            0 <= i <= 8,
            bytes == le_bytes(word),
            buf@ == old(buf)@ + bytes.take(i as int),
            forall|j: int| 0 <= j < i ==> bytes[j] != 0,
        decreases 8 - i,
    {
        let byte = ((word >> (8 * i)) & 0xff) as u8;
        assert(byte == bytes[i as int]);
        if byte == 0 {
            proof {
                lemma_cstr_prefix(bytes, i as int);
            }
            return true;
        }
        buf.push(byte);
        assert(bytes.take(i as int + 1) =~= bytes.take(i as int).push(byte));
        i = i + 1;
    }
    proof {
        lemma_cstr_prefix(bytes, 8);
        assert(bytes.take(8) =~= bytes);
    }
    false
}

/// The address one word past `a`, unless that leaves the address space.
pub open spec fn next_word_addr(a: Word) -> Option<Word> {
    if a <= u64::MAX - 8 {
        Some((a + 8) as Word)
    } else {
        None
    }
}

/// Abstract state of an [`ArgvReader`].
pub ghost struct ReaderModel {
    /// Address of the table slot read next, or of the slot of the string
    /// being read.
    pub table: Word,
    /// Address of the next word of the string being read, if one is.
    pub string: Option<Word>,
    /// Bytes of the string being read, so far.
    pub current: Seq<u8>,
    /// The strings read completely.
    pub args: Seq<Seq<u8>>,
    /// Whether the table has ended.
    pub done: bool,
}

/// The state in which reading the table at `addr` starts.
pub open spec fn reader_start(addr: Word) -> ReaderModel {
    ReaderModel { table: addr, string: None, current: Seq::empty(), args: Seq::empty(), done: false }
}

/// The address the reader asks for next, if any.
pub open spec fn reader_request(s: ReaderModel) -> Option<Word> {
    if s.done {
        None
    } else {
        match s.string {
            Some(c) => Some(c),
            None => Some(s.table),
        }
    }
}

/// Closes the string being read and moves to the next table slot; the table
/// ends where the next slot would leave the address space.
pub open spec fn finish_string(s: ReaderModel, text: Seq<u8>) -> ReaderModel {
    let args = s.args.push(text);
    match next_word_addr(s.table) {
        Some(t) => ReaderModel { table: t, string: None, current: Seq::empty(), args, done: false },
        None => ReaderModel { table: s.table, string: None, current: Seq::empty(), args, done: true },
    }
}

/// One step of the reader: `word` is what reading the requested address
/// gave (`None` for a failed read).
pub open spec fn reader_step(s: ReaderModel, word: Option<Word>) -> ReaderModel {
    if s.done {
        s
    } else {
        match s.string {
            None => match word {
                Some(p) if p != 0 => ReaderModel { string: Some(p), current: Seq::empty(), ..s },
                _ => ReaderModel { done: true, ..s },
            },
            Some(c) => match word {
                None => finish_string(s, s.current),
                Some(w) => {
                    let text = s.current + cstr_prefix(le_bytes(w));
                    if le_bytes(w).contains(0) {
                        finish_string(s, text)
                    } else {
                        match next_word_addr(c) {
                            Some(n) => ReaderModel { string: Some(n), current: text, ..s },
                            None => finish_string(s, text),
                        }
                    }
                },
            },
        }
    }
}

/// Rebuilds an argument vector from word reads. Read failures end the
/// current string, or the table, with what was read so far.
pub struct ArgvReader {
    table: Word,
    string: Option<Word>,
    current: Vec<u8>,
    args: Vec<Vec<u8>>,
    done: bool,
}

/// The byte strings held by a vector of byte vectors.
pub open spec fn byte_strings(v: Seq<Vec<u8>>) -> Seq<Seq<u8>> {
    v.map_values(|b: Vec<u8>| b@)
}

impl View for ArgvReader {
    type V = ReaderModel;

    closed spec fn view(&self) -> ReaderModel {
        ReaderModel {
            table: self.table,
            string: self.string,
            current: self.current@,
            args: byte_strings(self.args@),
            done: self.done,
        }
    }
}

impl ArgvReader {
    /// A reader of the argument table at `addr` in the tracee.
    pub fn new(addr: Word) -> (r: ArgvReader)
        ensures
            r@ == reader_start(addr),
    {
        let r = ArgvReader { table: addr, string: None, current: Vec::new(), args: Vec::new(), done: false };
        assert(byte_strings(r.args@) =~= Seq::<Seq<u8>>::empty());
        r
    }

    /// The tracee address whose word the reader needs next; `None` once the
    /// argument vector is complete.
    pub fn next_address(&self) -> (r: Option<Word>)
        ensures
            r == reader_request(self@),
    {
        if self.done {
            None
        } else {
            match self.string {
                Some(c) => Some(c),
                None => Some(self.table),
            }
        }
    }

    fn finish(&mut self)
        requires
            !old(self).done,
        ensures
            final(self)@ == finish_string(old(self)@, old(self)@.current),
    {
        let mut text: Vec<u8> = Vec::new();
        std::mem::swap(&mut text, &mut self.current);
        let ghost old_args = self.args@;
        self.args.push(text);
        assert(byte_strings(self.args@) =~= byte_strings(old_args).push(text@));
        self.string = None;
        if self.table <= u64::MAX - WORD_BYTES {
            self.table = self.table + WORD_BYTES;
        } else {
            self.done = true;
        }
    }

    /// Hands the reader the outcome of reading the address it asked for.
    pub fn feed(&mut self, word: Option<Word>)
        ensures
            final(self)@ == reader_step(old(self)@, word),
    {
        if self.done {
            return;
        }
        match self.string {
            None => match word {
                Some(p) if p != 0 => {
                    self.string = Some(p);
                    self.current = Vec::new();
                },
                _ => {
                    self.done = true;
                },
            },
            Some(c) => match word {
                None => self.finish(),
                Some(w) => {
                    let found_nul = append_word_text(&mut self.current, w);
                    if found_nul {
                        self.finish();
                    } else if c <= u64::MAX - WORD_BYTES {
                        self.string = Some(c + WORD_BYTES);
                    } else {
                        self.finish();
                    }
                },
            },
        }
    }

    /// The strings read so far; all of them once [`Self::next_address`]
    /// returns `None`.
    pub fn args(&self) -> (r: &Vec<Vec<u8>>)
        ensures
            byte_strings(r@) == self@.args,
    {
        &self.args
    }
}


/// ASCII space, which separates the arguments in a report line.
pub const SPACE: u8 = 32;

/// ASCII apostrophe, which closes a report line.
pub const QUOTE: u8 = 39;

/// The ASCII bytes of `executable args: '`, which open a report line.
pub open spec fn line_prefix() -> Seq<u8> {
    seq![
        101u8, 120, 101, 99, 117, 116, 97, 98, 108, 101, 32,
        97, 114, 103, 115, 58, 32, 39,
    ]
}

/// The strings of `args` joined by single spaces.
pub open spec fn joined(args: Seq<Seq<u8>>) -> Seq<u8>
    decreases args.len(),
{
    if args.len() == 0 {
        Seq::empty()
    } else if args.len() == 1 {
        args[0]
    } else {
        joined(args.drop_last()) + seq![SPACE] + args.last()
    }
}

/// The report line for an `execve` with argument vector `args`:
/// `executable args: '<arg0> <arg1> ...'`, without a line break.
pub open spec fn exec_line(args: Seq<Seq<u8>>) -> Seq<u8> {
    line_prefix() + joined(args) + seq![QUOTE]
}

/// Builds the report line for an `execve` with argument vector `args`.
pub fn format_exec_line(args: &Vec<Vec<u8>>) -> (line: Vec<u8>)
    ensures
        line@ == exec_line(byte_strings(args@)),
{
    let mut line: Vec<u8> = vec![
        101u8, 120, 101, 99, 117, 116, 97, 98, 108, 101, 32,
        97, 114, 103, 115, 58, 32, 39,
    ];
    assert(line@ =~= line_prefix());
    let ghost all = byte_strings(args@);
    let mut i: usize = 0;
    while i < args.len()
        invariant
            0 <= i <= args@.len(),
            all == byte_strings(args@),
            line@ == line_prefix() + joined(all.take(i as int)),
        decreases args@.len() - i,
    {
        let ghost before = line@;
        if i > 0 {
            line.push(SPACE);
        }
        let arg = &args[i];
        let mut j: usize = 0;
        while j < arg.len()
            invariant
                0 <= j <= arg@.len(),
                line@ == (if i > 0 { before + seq![SPACE] } else { before }) + arg@.take(j as int),
            decreases arg@.len() - j,
        {
            line.push(arg[j]);
            assert(arg@.take(j as int + 1) =~= arg@.take(j as int).push(arg@[j as int]));
            j = j + 1;
        }
        proof {
            assert(arg@.take(arg@.len() as int) =~= arg@);
            let next = all.take(i as int + 1);
            assert(next.last() == arg@);
            if i > 0 {
                assert(next.drop_last() =~= all.take(i as int));
            } else {
                assert(all.take(0) =~= Seq::<Seq<u8>>::empty());
            }
            assert(line@ =~= line_prefix() + joined(next));
        }
        i = i + 1;
    }
    assert(all.take(args@.len() as int) =~= all);
    line.push(QUOTE);
    line
}


/// The outcome of a PEEKTEXT read at `a` of a tracee whose readable words
/// are `mem` (address to the word read there).
pub open spec fn peek(mem: Map<Word, Word>, a: Word) -> Option<Word> {
    if mem.contains_key(a) {
        Some(mem[a])
    } else {
        None
    }
}

/// The reader's state after at most `fuel` reads out of `mem`.
pub open spec fn reader_run(mem: Map<Word, Word>, s: ReaderModel, fuel: nat) -> ReaderModel
    decreases fuel,
{
    if fuel == 0 {
        s
    } else {
        match reader_request(s) {
            None => s,
            Some(a) => reader_run(mem, reader_step(s, peek(mem, a)), (fuel - 1) as nat),
        }
    }
}

/// The word read `k` words past `p` holds the bytes of `s` (followed by its
/// NUL) that fall at those eight positions.
pub open spec fn chunk_at(mem: Map<Word, Word>, p: Word, s: Seq<u8>, k: int) -> bool {
    let a = (p + 8 * k) as Word;
    let padded = s.push(0);
    &&& mem.contains_key(a)
    &&& forall|j: int| 0 <= j < 8 && 8 * k + j < padded.len() ==> #[trigger] le_bytes(mem[a])[j] == padded[8 * k + j]
}

/// `mem` holds the NUL-free string `s` at `p`, as far as the reads of a
/// word-by-word copy go, and those reads stay in the address space.
pub open spec fn string_at(mem: Map<Word, Word>, p: Word, s: Seq<u8>) -> bool {
    &&& !s.contains(0)
    &&& p + s.len() + 8 <= u64::MAX
    &&& forall|k: int| 0 <= k && 8 * k <= s.len() ==> #[trigger] chunk_at(mem, p, s, k)
}

/// `mem` holds at `addr` an argument table whose slots point, in order, to
/// `ptrs`, each non-null and holding the matching string of `argv`, then a
/// null slot.
pub open spec fn argv_at(mem: Map<Word, Word>, addr: Word, ptrs: Seq<Word>, argv: Seq<Seq<u8>>) -> bool {
    &&& ptrs.len() == argv.len()
    &&& addr + 8 * argv.len() + 8 <= u64::MAX
    &&& forall|i: int| 0 <= i < argv.len() ==> #[trigger] peek(mem, (addr + 8 * i) as Word) == Some(ptrs[i])
    &&& forall|i: int| 0 <= i < argv.len() ==> #[trigger] ptrs[i] != 0
    &&& forall|i: int| 0 <= i < argv.len() ==> #[trigger] string_at(mem, ptrs[i], argv[i])
    &&& peek(mem, (addr + 8 * argv.len()) as Word) == Some(0u64)
}

/// Reads a word-by-word copy of a string of `len` bytes takes, from byte
/// offset `off` on.
pub open spec fn string_reads(len: int, off: int) -> nat
    decreases len - off,
{
    if off + 8 > len {
        1
    } else {
        1 + string_reads(len, off + 8)
    }
}

/// Reads the reader takes over the table of `argv` from slot `i` on.
pub open spec fn table_reads(argv: Seq<Seq<u8>>, i: int) -> nat
    decreases argv.len() - i,
{
    if i < 0 || i >= argv.len() {
        1
    } else {
        1 + string_reads(argv[i].len() as int, 0) + table_reads(argv, i + 1)
    }
}

proof fn lemma_run_split(mem: Map<Word, Word>, s: ReaderModel, a: nat, b: nat)
    ensures
        reader_run(mem, s, a + b) == reader_run(mem, reader_run(mem, s, a), b),
    decreases a,
{
    if a > 0 {
        match reader_request(s) {
            None => {
                if b > 0 {
                    assert(reader_run(mem, s, b) == s);
                }
            },
            Some(addr) => {
                lemma_run_split(mem, reader_step(s, peek(mem, addr)), (a - 1) as nat, b);
                assert((a + b - 1) as nat == (a - 1) as nat + b);
            },
        }
    }
}

proof fn lemma_read_string(mem: Map<Word, Word>, p: Word, s: Seq<u8>, k: int, st: ReaderModel)
    requires
        string_at(mem, p, s),
        0 <= k,
        8 * k <= s.len(),
        !st.done,
        st.string == Some((p + 8 * k) as Word),
        st.current == s.take(8 * k),
    ensures
        reader_run(mem, st, string_reads(s.len() as int, 8 * k)) == finish_string(st, s),
    decreases s.len() - 8 * k,
{
    let a = (p + 8 * k) as Word;
    assert(chunk_at(mem, p, s, k));
    let w = mem[a];
    let bytes = le_bytes(w);
    let padded = s.push(0);
    assert(reader_request(st) == Some(a));
    assert(peek(mem, a) == Some(w));
    if 8 * k + 8 <= s.len() {
        assert forall|j: int| 0 <= j < 8 implies bytes[j] != 0 by {
            assert(le_bytes(w)[j] == padded[8 * k + j]);
            assert(padded[8 * k + j] == s[8 * k + j]);
            if s[8 * k + j] == 0 {
                assert(s.contains(0));
            }
        }
        lemma_cstr_prefix(bytes, 8);
        assert(bytes.take(8) =~= bytes);
        let text = st.current + cstr_prefix(bytes);
        assert forall|j: int| 0 <= j < 8 implies bytes[j] == s[8 * k + j] by {
            assert(le_bytes(w)[j] == padded[8 * k + j]);
        }
        assert(text =~= s.take(8 * (k + 1)));
        assert(next_word_addr(a) == Some((p + 8 * (k + 1)) as Word));
        let st1 = ReaderModel { string: Some((p + 8 * (k + 1)) as Word), current: text, ..st };
        assert(reader_step(st, Some(w)) == st1);
        lemma_read_string(mem, p, s, k + 1, st1);
        assert(string_reads(s.len() as int, 8 * k) == 1 + string_reads(s.len() as int, 8 * (k + 1)));
    } else {
        let r = s.len() - 8 * k;
        assert forall|j: int| 0 <= j < r implies bytes[j] != 0 && bytes[j] == s[8 * k + j] by {
            assert(le_bytes(w)[j] == padded[8 * k + j]);
            assert(padded[8 * k + j] == s[8 * k + j]);
            if s[8 * k + j] == 0 {
                assert(s.contains(0));
            }
        }
        assert(le_bytes(w)[r] == padded[8 * k + r]);
        assert(bytes[r] == 0);
        lemma_cstr_prefix(bytes, r);
        let text = st.current + cstr_prefix(bytes);
        assert(text =~= s);
        assert(reader_step(st, Some(w)) == finish_string(st, s));
        assert(string_reads(s.len() as int, 8 * k) == 1);
        assert(reader_run(mem, finish_string(st, s), 0) == finish_string(st, s));
    }
}

proof fn lemma_read_table(mem: Map<Word, Word>, addr: Word, ptrs: Seq<Word>, argv: Seq<Seq<u8>>, i: int)
    requires
        argv_at(mem, addr, ptrs, argv),
        0 <= i <= argv.len(),
    ensures
        ({
            let st = ReaderModel {
                table: (addr + 8 * i) as Word,
                string: None,
                current: Seq::empty(),
                args: argv.take(i),
                done: false,
            };
            let r = reader_run(mem, st, table_reads(argv, i));
            r.done && r.args == argv
        }),
    decreases argv.len() - i,
{
    let st = ReaderModel {
        table: (addr + 8 * i) as Word,
        string: None,
        current: Seq::empty(),
        args: argv.take(i),
        done: false,
    };
    assert(reader_request(st) == Some((addr + 8 * i) as Word));
    if i == argv.len() {
        assert(argv.take(i) =~= argv);
        assert(reader_step(st, Some(0u64)).done);
        assert(reader_run(mem, reader_step(st, Some(0u64)), 0) == reader_step(st, Some(0u64)));
    } else {
        assert(peek(mem, (addr + 8 * i) as Word) == Some(ptrs[i]));
        assert(ptrs[i] != 0);
        assert(string_at(mem, ptrs[i], argv[i]));
        let st1 = ReaderModel { string: Some(ptrs[i]), current: Seq::empty(), ..st };
        assert(reader_step(st, Some(ptrs[i])) == st1);
        assert(reader_run(mem, st1, 0) == st1);
        assert(reader_run(mem, st, 1) == st1);
        let w = string_reads(argv[i].len() as int, 0);
        let t = table_reads(argv, i + 1);
        lemma_run_split(mem, st, 1, w + t);
        lemma_run_split(mem, st1, w, t);
        assert(argv[i].take(0) =~= Seq::<u8>::empty());
        assert((ptrs[i] + 8 * 0) as Word == ptrs[i]);
        lemma_read_string(mem, ptrs[i], argv[i], 0, st1);
        let st2 = finish_string(st1, argv[i]);
        assert(argv.take(i).push(argv[i]) =~= argv.take(i + 1));
        assert(st2 == ReaderModel {
            table: (addr + 8 * (i + 1)) as Word,
            string: None,
            current: Seq::empty(),
            args: argv.take(i + 1),
            done: false,
        });
        lemma_read_table(mem, addr, ptrs, argv, i + 1);
        assert(table_reads(argv, i) == 1 + (w + t));
    }
}

/// Argument-vector round trip: a reader started on the table of an argument
/// vector laid out in the tracee reads back exactly that vector, and the
/// line it makes is `executable args: '` followed by the arguments joined
/// by spaces and a closing `'`.
pub proof fn lemma_argv_round_trip(mem: Map<Word, Word>, addr: Word, ptrs: Seq<Word>, argv: Seq<Seq<u8>>)
    requires
        argv_at(mem, addr, ptrs, argv),
    ensures
        reader_run(mem, reader_start(addr), table_reads(argv, 0)).done,
        reader_run(mem, reader_start(addr), table_reads(argv, 0)).args == argv,
        exec_line(reader_run(mem, reader_start(addr), table_reads(argv, 0)).args)
            == line_prefix() + joined(argv) + seq![QUOTE],
{
    assert(argv.take(0) =~= Seq::<Seq<u8>>::empty());
    assert((addr + 8 * 0) as Word == addr);
    lemma_read_table(mem, addr, ptrs, argv, 0);
}


/// No string of `args` holds a space.
pub open spec fn free_of_spaces(args: Seq<Seq<u8>>) -> bool {
    forall|i: int| 0 <= i < args.len() ==> !(#[trigger] args[i]).contains(SPACE)
}

proof fn lemma_joined_unique(a: Seq<Seq<u8>>, b: Seq<Seq<u8>>)
    requires
        a.len() > 0,
        b.len() > 0,
        free_of_spaces(a),
        free_of_spaces(b),
        joined(a) == joined(b),
    ensures
        a == b,
    decreases a.len() + b.len(),
{
    let j = joined(a);
    if a.len() == 1 && b.len() == 1 {
        assert(a =~= b);
    } else if a.len() == 1 || b.len() == 1 {
        let (one, many) = if a.len() == 1 { (a, b) } else { (b, a) };
        let pos = joined(many.drop_last()).len() as int;
        assert(joined(many)[pos] == SPACE);
        assert(one[0].contains(SPACE)) by {
            assert(one[0][pos] == SPACE);
        }
        assert(!one[0].contains(SPACE));
    } else {
        let x = a.last();
        let y = b.last();
        let ja = joined(a.drop_last());
        let jb = joined(b.drop_last());
        assert(j == ja + seq![SPACE] + x);
        assert(j == jb + seq![SPACE] + y);
        assert(!x.contains(SPACE));
        assert(!y.contains(SPACE));
        if x.len() < y.len() {
            let pos = j.len() - x.len() - 1;
            assert(j[pos] == SPACE);
            let q = pos - jb.len() - 1;
            assert(y[q] == j[pos]);
            assert(y.contains(SPACE));
        } else if y.len() < x.len() {
            let pos = j.len() - y.len() - 1;
            assert(j[pos] == SPACE);
            let q = pos - ja.len() - 1;
            assert(x[q] == j[pos]);
            assert(x.contains(SPACE));
        } else {
            assert(x =~= j.subrange(j.len() - x.len(), j.len() as int));
            assert(y =~= j.subrange(j.len() - y.len(), j.len() as int));
            assert(ja =~= j.subrange(0, ja.len() as int));
            assert(jb =~= j.subrange(0, jb.len() as int));
            assert(free_of_spaces(a.drop_last()));
            assert(free_of_spaces(b.drop_last()));
            lemma_joined_unique(a.drop_last(), b.drop_last());
            assert(a =~= a.drop_last().push(x));
            assert(b =~= b.drop_last().push(y));
        }
    }
}

/// Report-line round trip: for non-empty argument vectors whose strings
/// hold no space, equal report lines come only from equal vectors, so the
/// line gives back the vector by splitting at the spaces.
pub proof fn lemma_line_determines_args(a: Seq<Seq<u8>>, b: Seq<Seq<u8>>)
    requires
        a.len() > 0,
        b.len() > 0,
        free_of_spaces(a),
        free_of_spaces(b),
        exec_line(a) == exec_line(b),
    ensures
        a == b,
{
    let la = exec_line(a);
    let n = line_prefix().len() as int;
    assert(joined(a) =~= la.subrange(n, la.len() - 1));
    assert(joined(b) =~= la.subrange(n, la.len() - 1));
    lemma_joined_unique(a, b);
}

} // verus!
