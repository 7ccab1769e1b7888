//! The parts of the core-module encoder that decide rather than emit: what an
//! encoding produced, where the string literals live below the bump region,
//! and which index each helper routine gets.
use vstd::prelude::*;
use vstd::string::*;

use crate::text::str_eq;

verus! {

/// **What an encoding produced, and never silently nothing.**
///
/// A construct encoded to `nop` produces a module that validates, links,
/// instantiates and does the wrong thing; so an encoder that cannot
/// represent a construct says so, and one whose input never arrived says
/// that instead.
#[derive(Debug, Clone, PartialEq, Eq)]
pub enum Encoding<T> {
    Encoded(T),
    /// The encoder does not represent this construct yet, and says which.
    Unsupported { construct: &'static str, reason: String },
    /// An upstream stage did not produce what this one needs. Not a
    /// violation of anything, and not something to fill in.
    Blocked { why: String },
}

impl<T> Encoding<T> {
    pub fn is_encoded(&self) -> (r: bool)
        ensures
            r == (self is Encoded),
    {
        match self {
            Encoding::Encoded(_) => true,
            _ => false,
        }
    }

    /// The encoded value, when there is one.
    pub fn encoded(self) -> (r: Option<T>)
        ensures
            match self {
                Encoding::Encoded(t) => r == Some(t),
                _ => r is None,
            },
    {
        match self {
            Encoding::Encoded(t) => Some(t),
            _ => None,
        }
    }

    /// The encoded value passed through `f`; a refusal or a block is
    /// carried over as it was.
    pub fn map<U, F: FnOnce(T) -> U>(self, f: F) -> (r: Encoding<U>)
        requires
            self matches Encoding::Encoded(t) ==> call_requires(f, (t,)),
        ensures
            match self {
                Encoding::Encoded(t) => r matches Encoding::Encoded(u) && call_ensures(f, (t,), u),
                Encoding::Unsupported { construct, reason } => r == (Encoding::<U>::Unsupported {
                    construct,
                    reason,
                }),
                Encoding::Blocked { why } => r == (Encoding::<U>::Blocked { why }),
            },
    {
        match self {
            Encoding::Encoded(t) => Encoding::Encoded(f(t)),
            Encoding::Unsupported { construct, reason } => Encoding::Unsupported { construct, reason },
            Encoding::Blocked { why } => Encoding::Blocked { why },
        }
    }

    /// What a reader is told.
    pub fn describe(&self) -> (r: String)
        ensures
            r@ == match self {
                Encoding::Encoded(_) => "encoded"@,
                Encoding::Unsupported { construct, reason } => "`"@ + construct@
                    + "` does not encode: "@ + reason@,
                Encoding::Blocked { why } => "blocked upstream: "@ + why@,
            },
    {
        match self {
            Encoding::Encoded(_) => String::from_str("encoded"),
            Encoding::Unsupported { construct, reason } => {
                let mut s: String = String::from_str("`");
                s.append(construct);
                s.append("` does not encode: ");
                s.append(reason.as_str());
                s
            },
            Encoding::Blocked { why } => {
                let mut s: String = String::from_str("blocked upstream: ");
                s.append(why.as_str());
                s
            },
        }
    }
}

/// Where the bump region starts. Address 0 is never handed out, so a null
/// pointer cannot alias an allocation.
pub const HEAP_BASE: i32 = 16;

/// Where the string literals start. The region starts after them.
pub const DATA_BASE: u32 = 16;

/// The largest data segment a module may hold: its end, rounded up to the
/// region's alignment, is still an address.
pub open spec fn data_fits(len: nat) -> bool {
    DATA_BASE + len + 8 <= i32::MAX
}

/// **Every string constant a body names, at its address**: one data
/// segment below the invocation region, each constant once, at the address
/// where it was first laid down.
#[derive(Debug)]
pub struct Literals {
    at: Vec<(String, u32)>,
    /// Each case table laid down: its case, and the address of its ranges,
    /// their count, the address of its multi entries, their count.
    tables: Vec<(Case, (u32, u32, u32, u32))>,
    bytes: Vec<u8>,
}

/// The case a string is mapped to.
#[derive(Debug, Clone, Copy, PartialEq, Eq, Structural)]
pub enum Case {
    Lower,
    Upper,
}

/// The zero bytes that bring a segment of `len` bytes to a 4-byte
/// boundary, counting from `DATA_BASE`.
pub open spec fn word_padding(len: nat) -> nat {
    ((4 - (DATA_BASE + len) % 4) % 4) as nat
}

/// What a body's instruction asks of the data segment.
#[derive(Debug, Clone)]
pub enum Named {
    /// A string constant.
    Str(String),
    /// A value written as text: a `Bool` becomes `true` or `false`.
    Format,
    /// A string mapped to lower case.
    ToLower,
    /// A string mapped to upper case.
    ToUpper,
}

/// A case table's bytes: its ranges, then its multi entries, sixteen bytes
/// each.
pub struct CaseTable {
    pub bytes: Vec<u8>,
    pub ranges: u32,
    pub multi: u32,
}

impl CaseTable {
    pub open spec fn well_formed(&self) -> bool {
        self.bytes@.len() == 16 * (self.ranges + self.multi)
    }
}

/// The text of each string constant `uses` lays down, in order.
pub open spec fn named_texts(uses: Seq<Named>) -> Seq<Seq<char>>
    decreases uses.len(),
{
    if uses.len() == 0 {
        seq![]
    } else {
        named_texts(uses.drop_last()) + match uses.last() {
            Named::Str(s) => seq![s@],
            Named::Format => seq!["true"@, "false"@],
            _ => seq![],
        }
    }
}

/// The literals and the segment that laying down texts in order leaves.
pub open spec fn placed_texts(texts: Seq<Seq<char>>) -> (Seq<(Seq<char>, u32)>, Seq<u8>)
    decreases texts.len(),
{
    if texts.len() == 0 {
        (seq![], seq![])
    } else {
        let (at, bytes) = placed_texts(texts.drop_last());
        let s = texts.last();
        if exists|k: int| 0 <= k < at.len() && #[trigger] at[k].0 == s {
            (at, bytes)
        } else {
            (at.push((s, (DATA_BASE + bytes.len()) as u32)), bytes + vstd::utf8::encode_utf8(s))
        }
    }
}

proof fn lemma_placed_texts(cs: Seq<String>)
    ensures
        placed(cs) == placed_texts(cs.map_values(|s: String| s@)),
    decreases cs.len(),
{
    if cs.len() > 0 {
        lemma_placed_texts(cs.drop_last());
        assert(cs.drop_last().map_values(|s: String| s@) =~= cs.map_values(|s: String| s@).drop_last());
    }
}

pub open spec fn asks_for(uses: Seq<Named>, case: Case) -> bool {
    exists|k: int| 0 <= k < uses.len() && match #[trigger] uses[k] {
        Named::ToLower => case == Case::Lower,
        Named::ToUpper => case == Case::Upper,
        _ => false,
    }
}

/// `seg` with `table` laid after it on a word boundary.
pub open spec fn with_table(seg: Seq<u8>, table: Seq<u8>) -> Seq<u8> {
    seg + Seq::new(word_padding(seg.len()), |i: int| 0u8) + table
}

/// The first table laid down for `case`, if any.
pub open spec fn table_for(tables: Seq<(Case, (u32, u32, u32, u32))>, case: Case) -> Option<(u32, u32, u32, u32)>
    decreases tables.len(),
{
    if tables.len() == 0 {
        None
    } else {
        match table_for(tables.drop_last(), case) {
            Some(t) => Some(t),
            None => if tables.last().0 == case {
                Some(tables.last().1)
            } else {
                None
            },
        }
    }
}

/// Where each literal was laid down, and the text laid there.
pub open spec fn laid_out(at: Seq<(String, u32)>, bytes: Seq<u8>) -> bool {
    &&& forall|k: int|
        0 <= k < at.len() ==> {
            let (s, a) = #[trigger] at[k];
            let b = vstd::utf8::encode_utf8(s@);
            &&& DATA_BASE <= a
            &&& a - DATA_BASE + b.len() <= bytes.len()
            &&& bytes.subrange(a - DATA_BASE, a - DATA_BASE + b.len()) == b
        }
    &&& forall|i: int, j: int| 0 <= i < j < at.len() ==> #[trigger] at[i].0@ != #[trigger] at[j].0@
    &&& data_fits(bytes.len())
}

impl Literals {
    #[verifier::type_invariant]
    closed spec fn well_formed(self) -> bool {
        laid_out(self.at@, self.bytes@)
    }

    /// The literals, with the address of each.
    pub closed spec fn addresses(self) -> Seq<(Seq<char>, u32)> {
        self.at@.map_values(|e: (String, u32)| (e.0@, e.1))
    }

    /// The data segment's bytes.
    pub closed spec fn segment(self) -> Seq<u8> {
        self.bytes@
    }

    /// The case tables, in the order they were laid down.
    pub closed spec fn tables(self) -> Seq<(Case, (u32, u32, u32, u32))> {
        self.tables@
    }

    /// No literals, and an empty segment.
    pub fn new() -> (r: Literals)
        ensures
            r.addresses() == Seq::<(Seq<char>, u32)>::empty(),
            r.segment() == Seq::<u8>::empty(),
            r.tables() == Seq::<(Case, (u32, u32, u32, u32))>::empty(),
    {
        let r = Literals { at: Vec::new(), tables: Vec::new(), bytes: Vec::new() };
        assert(r.addresses() =~= Seq::<(Seq<char>, u32)>::empty());
        r
    }

    /// The address of `s`, when it has been laid down.
    pub fn address(&self, s: &str) -> (r: Option<u32>)
        ensures
            match r {
                Some(a) => {
                    &&& exists|k: int|
                        0 <= k < self.addresses().len() && #[trigger] self.addresses()[k] == (s@, a)
                    &&& DATA_BASE <= a
                    &&& a - DATA_BASE + s.spec_bytes().len() <= self.segment().len()
                    &&& self.segment().subrange(a - DATA_BASE, a - DATA_BASE + s.spec_bytes().len())
                        == s.spec_bytes()
                },
                None => forall|k: int|
                    0 <= k < self.addresses().len() ==> #[trigger] self.addresses()[k].0 != s@,
            },
    {
        proof {
            use_type_invariant(self);
        }
        let n: usize = self.at.len();
        let mut i: usize = 0;
        while i < n
            invariant
                n == self.at@.len(),
                laid_out(self.at@, self.bytes@),
                i <= n,
                forall|k: int| 0 <= k < i ==> #[trigger] self.addresses()[k].0 != s@,
            decreases n - i,
        {
            if str_eq(self.at[i].0.as_str(), s) {
                assert(self.addresses()[i as int] == (s@, self.at@[i as int].1));
                return Some(self.at[i].1);
            }
            i = i + 1;
        }
        None
    }

    /// **Lay `s` down**, unless it already is: at the end of the segment,
    /// its UTF-8 bytes appended.
    pub fn add(&mut self, s: &str)
        requires
            data_fits(old(self).segment().len() + s.spec_bytes().len()),
        ensures
            if exists|k: int|
                0 <= k < old(self).addresses().len() && #[trigger] old(self).addresses()[k].0 == s@ {
                final(self).addresses() == old(self).addresses() && final(self).segment() == old(
                    self,
                ).segment()
            } else {
                &&& final(self).addresses() == old(self).addresses().push(
                    (s@, (DATA_BASE + old(self).segment().len()) as u32),
                )
                &&& final(self).segment() == old(self).segment() + s.spec_bytes()
            },
            final(self).tables() == old(self).tables(),
    {
        proof {
            use_type_invariant(&*self);
        }
        match self.address(s) {
            Some(a) => {
                proof {
                    let k = choose|k: int|
                        0 <= k < self.addresses().len() && #[trigger] self.addresses()[k] == (s@, a);
                    assert(old(self).addresses()[k].0 == s@);
                }
            },
            None => {
                let bytes: &[u8] = s.as_bytes();
                let mut me: Literals = Literals::new();
                std::mem::swap(&mut me, self);
                let Literals { at: mut at, tables, bytes: mut next } = me;
                let base: usize = next.len();
                let a: u32 = DATA_BASE + (base as u32);
                let ghost old_bytes = next@;
                let ghost old_at = at@;
                let n: usize = bytes.len();
                let mut i: usize = 0;
                while i < n
                    invariant
                        n == bytes@.len(),
                        bytes@ == s.spec_bytes(),
                        i <= n,
                        next@ == old_bytes + bytes@.subrange(0, i as int),
                    decreases n - i,
                {
                    next.push(bytes[i]);
                    assert(bytes@.subrange(0, i + 1) =~= bytes@.subrange(0, i as int).push(bytes@[i as int]));
                    i = i + 1;
                }
                assert(bytes@.subrange(0, n as int) =~= bytes@);
                let entry: (String, u32) = (String::from_str(s), a);
                proof {
                    assert(old_at == old(self).at@ && old_bytes == old(self).bytes@);
                    assert forall|k: int| 0 <= k < old_at.len() implies #[trigger] old_at[k].0@ != entry.0@ by {
                        assert(old(self).addresses()[k].0 != s@);
                    }
                    lemma_laid_out_push(old_at, old_bytes, entry);
                }
                at.push(entry);
                *self = Literals { at, tables, bytes: next };
                proof {
                    assert(self.addresses() =~= old(self).addresses().push((s@, a)));
                }
            },
        }
    }

    /// **Every string constant a body names, at its address**, laid down in
    /// the order the body names them, each once.
    pub fn of(constants: &[String]) -> (r: Literals)
        requires
            data_fits(total_bytes(constants@)),
        ensures
            r.addresses() == placed(constants@).0,
            r.segment() == placed(constants@).1,
            r.tables() == Seq::<(Case, (u32, u32, u32, u32))>::empty(),
    {
        let mut out: Literals = Literals::new();
        let n: usize = constants.len();
        let mut i: usize = 0;
        while i < n
            invariant
                n == constants@.len(),
                i <= n,
                data_fits(total_bytes(constants@)),
                out.addresses() == placed(constants@.subrange(0, i as int)).0,
                out.segment() == placed(constants@.subrange(0, i as int)).1,
                out.tables() == Seq::<(Case, (u32, u32, u32, u32))>::empty(),
            decreases n - i,
        {
            let ghost prefix = constants@.subrange(0, i + 1);
            proof {
                assert(prefix.drop_last() =~= constants@.subrange(0, i as int));
                lemma_placed_bound(constants@.subrange(0, i as int));
                lemma_total_prefix(constants@, i as int);
            }
            out.add(constants[i].as_str());
            i = i + 1;
        }
        assert(constants@.subrange(0, n as int) =~= constants@);
        out
    }

    /// Where the table for `case` was laid down, if it was.
    pub fn table(&self, case: Case) -> (r: Option<(u32, u32, u32, u32)>)
        ensures
            r == table_for(self.tables(), case),
    {
        let n: usize = self.tables.len();
        let mut i: usize = 0;
        while i < n
            invariant
                n == self.tables@.len(),
                i <= n,
                table_for(self.tables@.subrange(0, i as int), case) is None,
            decreases n - i,
        {
            proof {
                assert(self.tables@.subrange(0, i + 1).drop_last() =~= self.tables@.subrange(0, i as int));
            }
            if self.tables[i].0 == case {
                let t = self.tables[i].1;
                proof {
                    lemma_table_for_prefix(self.tables@, i + 1);
                }
                return Some(t);
            }
            i = i + 1;
        }
        proof {
            assert(self.tables@.subrange(0, n as int) =~= self.tables@);
        }
        None
    }

    /// **Lay down the case table for `case`**, unless one already is: after
    /// the bytes so far, brought to a 4-byte boundary with zeros, its ranges
    /// then its multi entries, sixteen bytes each. Gives the address of the
    /// ranges, their count, the address of the multi entries, their count.
    pub fn add_case_table(&mut self, case: Case, table: &[u8], ranges: u32, multi: u32) -> (r: (u32, u32, u32, u32))
        requires
            table@.len() == 16 * (ranges + multi),
            data_fits(old(self).segment().len() + 3 + table@.len()),
        ensures
            final(self).addresses() == old(self).addresses(),
            match table_for(old(self).tables(), case) {
                Some(t) => {
                    &&& r == t
                    &&& final(self).segment() == old(self).segment()
                    &&& final(self).tables() == old(self).tables()
                },
                None => {
                    let at = DATA_BASE + old(self).segment().len() + word_padding(old(self).segment().len());
                    &&& r == (at as u32, ranges, (at + 16 * ranges) as u32, multi)
                    &&& at % 4 == 0
                    &&& final(self).segment() == old(self).segment() + Seq::new(
                        word_padding(old(self).segment().len()),
                        |i: int| 0u8,
                    ) + table@
                    &&& final(self).tables() == old(self).tables().push((case, r))
                },
            },
    {
        proof {
            use_type_invariant(&*self);
        }
        if let Some(t) = self.table(case) {
            return t;
        }
        let mut me: Literals = Literals::new();
        std::mem::swap(&mut me, self);
        let Literals { at, tables: mut tables, bytes: mut next } = me;
        let ghost old_bytes = next@;
        let len: u32 = next.len() as u32;
        let pad: u32 = (4 - (DATA_BASE + len) % 4) % 4;
        assert(pad == word_padding(old_bytes.len()));
        let mut k: u32 = 0;
        while k < pad
            invariant
                k <= pad,
                pad <= 3,
                next@ == old_bytes + Seq::new(k as nat, |i: int| 0u8),
            decreases pad - k,
        {
            next.push(0u8);
            k = k + 1;
            assert(next@ =~= old_bytes + Seq::new(k as nat, |i: int| 0u8));
        }
        let ghost padded = next@;
        let base: u32 = DATA_BASE + (next.len() as u32);
        let n: usize = table.len();
        let mut i: usize = 0;
        while i < n
            invariant
                n == table@.len(),
                i <= n,
                next@ == padded + table@.subrange(0, i as int),
            decreases n - i,
        {
            next.push(table[i]);
            assert(table@.subrange(0, i + 1) =~= table@.subrange(0, i as int).push(table@[i as int]));
            i = i + 1;
        }
        assert(table@.subrange(0, n as int) =~= table@);
        let r: (u32, u32, u32, u32) = (base, ranges, base + 16 * ranges, multi);
        tables.push((case, r));
        proof {
            assert(next@.subrange(0, old_bytes.len() as int) =~= old_bytes);
            lemma_laid_out_extend(at@, old_bytes, next@);
            assert(next@ =~= old_bytes + Seq::new(pad as nat, |i: int| 0u8) + table@);
        }
        *self = Literals { at, tables, bytes: next };
        r
    }

    /// **Every string constant a body names, at its address, then the
    /// case tables it maps with**: a value written as text lays down `true`
    /// and `false`; the tables follow the strings, so a body that maps no
    /// case keeps its layout, lower case first, each on a word boundary.
    pub fn of_body(uses: &[Named], lower: &CaseTable, upper: &CaseTable) -> (r: Literals)
        requires
            lower.well_formed(),
            upper.well_formed(),
            data_fits(texts_bytes(named_texts(uses@)) + 6 + lower.bytes@.len() + upper.bytes@.len()),
        ensures
            r.addresses() == placed_texts(named_texts(uses@)).0,
            r.segment() == body_segment(
                placed_texts(named_texts(uses@)).1,
                asks_for(uses@, Case::Lower),
                lower.bytes@,
                asks_for(uses@, Case::Upper),
                upper.bytes@,
            ),
            r.tables() == body_tables(
                placed_texts(named_texts(uses@)).1.len(),
                asks_for(uses@, Case::Lower),
                *lower,
                asks_for(uses@, Case::Upper),
                *upper,
            ),
    {
        let mut constants: Vec<String> = Vec::new();
        let mut lower_used: bool = false;
        let mut upper_used: bool = false;
        let n: usize = uses.len();
        let mut i: usize = 0;
        while i < n
            invariant
                n == uses@.len(),
                i <= n,
                constants@.map_values(|s: String| s@) == named_texts(uses@.subrange(0, i as int)),
                lower_used == asks_for(uses@.subrange(0, i as int), Case::Lower),
                upper_used == asks_for(uses@.subrange(0, i as int), Case::Upper),
            decreases n - i,
        {
            let ghost before = constants@;
            let ghost prefix = uses@.subrange(0, i + 1);
            proof {
                assert(prefix.drop_last() =~= uses@.subrange(0, i as int));
                assert(prefix.last() == uses@[i as int]);
            }
            match &uses[i] {
                Named::Str(s) => {
                    constants.push(String::from_str(s.as_str()));
                },
                Named::Format => {
                    proof {
                        reveal_strlit("true");
                        reveal_strlit("false");
                    }
                    constants.push(String::from_str("true"));
                    constants.push(String::from_str("false"));
                },
                Named::ToLower => {
                    lower_used = true;
                },
                Named::ToUpper => {
                    upper_used = true;
                },
            }
            proof {
                assert(constants@.map_values(|s: String| s@) =~= named_texts(prefix));
                assert(prefix[i as int] == uses@[i as int]);
                if asks_for(uses@.subrange(0, i as int), Case::Lower) {
                    let k = choose|k: int| 0 <= k < i && match #[trigger] uses@.subrange(0, i as int)[k] {
                        Named::ToLower => Case::Lower == Case::Lower,
                        Named::ToUpper => Case::Lower == Case::Upper,
                        _ => false,
                    };
                    assert(prefix[k] == uses@.subrange(0, i as int)[k]);
                }
                if asks_for(uses@.subrange(0, i as int), Case::Upper) {
                    let k = choose|k: int| 0 <= k < i && match #[trigger] uses@.subrange(0, i as int)[k] {
                        Named::ToLower => Case::Upper == Case::Lower,
                        Named::ToUpper => Case::Upper == Case::Upper,
                        _ => false,
                    };
                    assert(prefix[k] == uses@.subrange(0, i as int)[k]);
                }
                if asks_for(prefix, Case::Lower) && !(uses@[i as int] is ToLower) {
                    let k = choose|k: int| 0 <= k < prefix.len() && match #[trigger] prefix[k] {
                        Named::ToLower => Case::Lower == Case::Lower,
                        Named::ToUpper => Case::Lower == Case::Upper,
                        _ => false,
                    };
                    assert(k < i);
                    assert(prefix[k] == uses@.subrange(0, i as int)[k]);
                }
                if asks_for(prefix, Case::Upper) && !(uses@[i as int] is ToUpper) {
                    let k = choose|k: int| 0 <= k < prefix.len() && match #[trigger] prefix[k] {
                        Named::ToLower => Case::Upper == Case::Lower,
                        Named::ToUpper => Case::Upper == Case::Upper,
                        _ => false,
                    };
                    assert(k < i);
                    assert(prefix[k] == uses@.subrange(0, i as int)[k]);
                }
            }
            i = i + 1;
        }
        proof {
            assert(uses@.subrange(0, n as int) =~= uses@);
            lemma_placed_texts(constants@);
            lemma_texts_bytes(constants@);
            lemma_placed_bound(constants@);
        }
        let mut r: Literals = Literals::of(&constants);
        let ghost strings = r.segment();
        let ghost len = strings.len();
        assert(table_for(r.tables(), Case::Lower) is None);
        if lower_used {
            r.add_case_table(Case::Lower, lower.bytes.as_slice(), lower.ranges, lower.multi);
            assert(r.tables() =~= seq![(Case::Lower, table_entry(len, *lower))]);
            assert(r.tables().drop_last() =~= Seq::<(Case, (u32, u32, u32, u32))>::empty());
        }
        let ghost mid = r.segment();
        let ghost mid_tables = r.tables();
        assert(mid == if lower_used { with_table(strings, lower.bytes@) } else { strings });
        assert(mid.len() == if lower_used { len + word_padding(len) + lower.bytes@.len() } else { len });
        assert(table_for(mid_tables, Case::Upper) is None) by {
            if lower_used {
                assert(mid_tables.drop_last() =~= Seq::<(Case, (u32, u32, u32, u32))>::empty());
                assert(table_for(mid_tables.drop_last(), Case::Upper) is None);
            }
        }
        if upper_used {
            r.add_case_table(Case::Upper, upper.bytes.as_slice(), upper.ranges, upper.multi);
            assert(r.tables() =~= mid_tables.push((Case::Upper, table_entry(mid.len(), *upper))));
        }
        r
    }

    /// **The region's first address**: past the literals, 8-aligned.
    pub fn heap_base(&self) -> (r: i32)
        ensures
            r == heap_base_spec(self.segment().len()),
            DATA_BASE + self.segment().len() <= r < DATA_BASE + self.segment().len() + 8,
            r % 8 == 0,
    {
        proof {
            use_type_invariant(self);
        }
        let end: u32 = DATA_BASE + (self.bytes.len() as u32);
        ((end + 7) / 8 * 8) as i32
    }
}

proof fn lemma_laid_out_extend(at: Seq<(String, u32)>, bytes: Seq<u8>, longer: Seq<u8>)
    requires
        laid_out(at, bytes),
        bytes.len() <= longer.len(),
        longer.subrange(0, bytes.len() as int) == bytes,
        data_fits(longer.len()),
    ensures
        laid_out(at, longer),
{
    assert forall|k: int| 0 <= k < at.len() implies {
        let (s, a) = #[trigger] at[k];
        let b = vstd::utf8::encode_utf8(s@);
        &&& DATA_BASE <= a
        &&& a - DATA_BASE + b.len() <= longer.len()
        &&& longer.subrange(a - DATA_BASE, a - DATA_BASE + b.len()) == b
    } by {
        let (s, a) = at[k];
        let b = vstd::utf8::encode_utf8(s@);
        assert(longer.subrange(a - DATA_BASE, a - DATA_BASE + b.len()) =~= bytes.subrange(
            a - DATA_BASE,
            a - DATA_BASE + b.len(),
        ));
    }
}

proof fn lemma_table_for_prefix(tables: Seq<(Case, (u32, u32, u32, u32))>, i: int)
    requires
        0 < i <= tables.len(),
        table_for(tables.subrange(0, i - 1), tables[i - 1].0) is None,
    ensures
        table_for(tables, tables[i - 1].0) == Some(tables[i - 1].1),
    decreases tables.len(),
{
    let case = tables[i - 1].0;
    assert(tables.subrange(0, i).drop_last() =~= tables.subrange(0, i - 1));
    if i < tables.len() {
        assert(tables.drop_last().subrange(0, i - 1) =~= tables.subrange(0, i - 1));
        lemma_table_for_prefix(tables.drop_last(), i);
    } else {
        assert(tables.subrange(0, i - 1) =~= tables.drop_last());
    }
}

proof fn lemma_laid_out_push(at: Seq<(String, u32)>, bytes: Seq<u8>, entry: (String, u32))
    requires
        laid_out(at, bytes),
        entry.1 == DATA_BASE + bytes.len(),
        forall|k: int| 0 <= k < at.len() ==> #[trigger] at[k].0@ != entry.0@,
        data_fits(bytes.len() + vstd::utf8::encode_utf8(entry.0@).len()),
    ensures
        laid_out(at.push(entry), bytes + vstd::utf8::encode_utf8(entry.0@)),
{
    let e = vstd::utf8::encode_utf8(entry.0@);
    let nat_ = at.push(entry);
    let nb = bytes + e;
    assert forall|k: int| 0 <= k < nat_.len() implies {
        let (s, a) = #[trigger] nat_[k];
        let b = vstd::utf8::encode_utf8(s@);
        &&& DATA_BASE <= a
        &&& a - DATA_BASE + b.len() <= nb.len()
        &&& nb.subrange(a - DATA_BASE, a - DATA_BASE + b.len()) == b
    } by {
        if k < at.len() {
            let (s, a) = at[k];
            let b = vstd::utf8::encode_utf8(s@);
            assert(nat_[k] == at[k]);
            assert(nb.subrange(a - DATA_BASE, a - DATA_BASE + b.len()) =~= bytes.subrange(
                a - DATA_BASE,
                a - DATA_BASE + b.len(),
            ));
        } else {
            assert(nat_[k] == entry);
            assert(nb.subrange(bytes.len() as int, (bytes.len() + e.len()) as int) =~= e);
        }
    }
    assert forall|i: int, j: int| 0 <= i < j < nat_.len() implies #[trigger] nat_[i].0@ != #[trigger] nat_[j].0@ by {
        if j < at.len() {
            assert(nat_[i] == at[i] && nat_[j] == at[j]);
        } else {
            assert(nat_[i] == at[i]);
        }
    }
}

/// The region's first address past a segment of `len` bytes.
pub open spec fn heap_base_spec(len: nat) -> int {
    (DATA_BASE + len + 7) / 8 * 8
}

/// The bytes of each text, each counted as often as it occurs.
pub open spec fn texts_bytes(texts: Seq<Seq<char>>) -> nat
    decreases texts.len(),
{
    if texts.len() == 0 {
        0
    } else {
        texts_bytes(texts.drop_last()) + vstd::utf8::encode_utf8(texts.last()).len()
    }
}

proof fn lemma_texts_bytes(cs: Seq<String>)
    ensures
        total_bytes(cs) == texts_bytes(cs.map_values(|s: String| s@)),
    decreases cs.len(),
{
    if cs.len() > 0 {
        lemma_texts_bytes(cs.drop_last());
        assert(cs.drop_last().map_values(|s: String| s@) =~= cs.map_values(|s: String| s@).drop_last());
    }
}

/// The segment of a body: its strings, then each table it asks for.
pub open spec fn body_segment(strings: Seq<u8>, lower_used: bool, lower: Seq<u8>, upper_used: bool, upper: Seq<u8>) -> Seq<u8> {
    let low = if lower_used { with_table(strings, lower) } else { strings };
    if upper_used { with_table(low, upper) } else { low }
}

/// Where a table goes after `len` bytes.
pub open spec fn table_entry(len: nat, t: CaseTable) -> (u32, u32, u32, u32) {
    let at = DATA_BASE + len + word_padding(len);
    (at as u32, t.ranges, (at + 16 * t.ranges) as u32, t.multi)
}

/// The tables of a body, after strings of `len` bytes.
pub open spec fn body_tables(len: nat, lower_used: bool, lower: CaseTable, upper_used: bool, upper: CaseTable) -> Seq<(Case, (u32, u32, u32, u32))> {
    let low: Seq<(Case, (u32, u32, u32, u32))> = if lower_used { seq![(Case::Lower, table_entry(len, lower))] } else { seq![] };
    let after = if lower_used { len + word_padding(len) + lower.bytes@.len() } else { len };
    if upper_used { low.push((Case::Upper, table_entry(after as nat, upper))) } else { low }
}

/// The literals and the segment that laying down `constants` in order
/// leaves.
pub open spec fn placed(constants: Seq<String>) -> (Seq<(Seq<char>, u32)>, Seq<u8>)
    decreases constants.len(),
{
    if constants.len() == 0 {
        (seq![], seq![])
    } else {
        let (at, bytes) = placed(constants.drop_last());
        let s = constants.last()@;
        if exists|k: int| 0 <= k < at.len() && #[trigger] at[k].0 == s {
            (at, bytes)
        } else {
            (at.push((s, (DATA_BASE + bytes.len()) as u32)), bytes + vstd::utf8::encode_utf8(s))
        }
    }
}

/// The bytes of every constant, each counted as often as it occurs.
pub open spec fn total_bytes(constants: Seq<String>) -> nat
    decreases constants.len(),
{
    if constants.len() == 0 {
        0
    } else {
        total_bytes(constants.drop_last()) + vstd::utf8::encode_utf8(constants.last()@).len()
    }
}

proof fn lemma_placed_bound(constants: Seq<String>)
    ensures
        placed(constants).1.len() <= total_bytes(constants),
    decreases constants.len(),
{
    if constants.len() > 0 {
        lemma_placed_bound(constants.drop_last());
    }
}

proof fn lemma_total_prefix(constants: Seq<String>, i: int)
    requires
        0 <= i < constants.len(),
    ensures
        total_bytes(constants.subrange(0, i + 1)) <= total_bytes(constants),
        total_bytes(constants.subrange(0, i + 1)) == total_bytes(constants.subrange(0, i))
            + vstd::utf8::encode_utf8(constants[i]@).len(),
    decreases constants.len(),
{
    assert(constants.subrange(0, i + 1).drop_last() =~= constants.subrange(0, i));
    if i + 1 < constants.len() {
        lemma_total_prefix(constants.drop_last(), i);
        assert(constants.drop_last().subrange(0, i + 1) =~= constants.subrange(0, i + 1));
        assert(constants.drop_last().subrange(0, i) =~= constants.subrange(0, i));
    } else {
        assert(constants.subrange(0, i + 1) =~= constants);
    }
}

/// **The module's own routines, beyond the three every module has**: small
/// functions a body calls rather than repeating inline.
#[derive(Debug, Clone, Copy, PartialEq, Eq, Structural)]
pub enum Helper {
    /// `(p1, l1, p2, l2) -> 1 | 0`: byte equality of two strings.
    StrEq,
    /// `(p1, l1, p2, l2) -> -1 | 0 | 1`: byte order of two strings.
    StrCmp,
    /// `(i64) -> (ptr, len)`: decimal text.
    IntToString,
    /// `(p, l) -> i64`: code points in a string.
    Utf8Count,
    /// `(p, l) -> (ptr, len)`: a string's code points.
    Codepoints,
    /// `(ptr, len) -> (p, l)`: UTF-8 from code points.
    FromCodepoints,
    StartsWith,
    EndsWith,
    Contains,
    /// `(list_ptr, list_len, sep_p, sep_l) -> (p, l)`.
    Join,
    /// A view without white space at either end.
    Trim,
    /// `A`-`Z` to `a`-`z`.
    LowerAscii,
    /// A view of code points `start` up to `end`.
    Slice,
    /// Each code point mapped by a case table.
    CaseMap,
}

/// The helpers a module uses, in the order they were first asked for, and
/// the function index the first of them gets.
#[derive(Debug)]
pub struct Helpers {
    /// The index the first helper gets.
    pub first: u32,
    pub used: Vec<Helper>,
}

/// The position of `h` among `used`.
pub open spec fn position(used: Seq<Helper>, h: Helper) -> Option<int>
    decreases used.len(),
{
    if used.len() == 0 {
        None
    } else if used[0] == h {
        Some(0)
    } else {
        match position(used.drop_first(), h) {
            Some(i) => Some(i + 1),
            None => None,
        }
    }
}

pub proof fn lemma_position(used: Seq<Helper>, h: Helper)
    ensures
        position(used, h) matches Some(i) ==> 0 <= i < used.len() && used[i] == h && forall|k: int|
            0 <= k < i ==> used[k] != h,
        position(used, h) is None ==> forall|k: int| 0 <= k < used.len() ==> used[k] != h,
    decreases used.len(),
{
    if used.len() > 0 {
        lemma_position(used.drop_first(), h);
        if used[0] != h {
            assert forall|k: int| 1 <= k < used.len() implies used[k] == used.drop_first()[k - 1] by {}
        }
    }
}

proof fn lemma_position_is(used: Seq<Helper>, h: Helper, i: int)
    requires
        0 <= i < used.len(),
        used[i] == h,
        forall|k: int| 0 <= k < i ==> used[k] != h,
    ensures
        position(used, h) == Some(i),
    decreases i,
{
    if i > 0 {
        assert forall|k: int| 0 <= k < i - 1 implies used.drop_first()[k] != h by {
            assert(used.drop_first()[k] == used[k + 1]);
        }
        lemma_position_is(used.drop_first(), h, i - 1);
    }
}

/// **A helper keeps its index.** Once asked for, asking for it again gives
/// the same index and records nothing new; and two helpers never share one.
pub proof fn index_is_stable(used: Seq<Helper>, h: Helper, g: Helper)
    ensures
        ({
            let after = match position(used, h) {
                Some(_) => used,
                None => used.push(h),
            };
            let at = match position(used, h) {
                Some(i) => i,
                None => used.len() as int,
            };
            position(after, h) == Some(at)
        }),
        position(used, h) is Some && position(used, h) == position(used, g) ==> h == g,
{
    lemma_position(used, h);
    lemma_position(used, g);
    if position(used, h) is None {
        let after = used.push(h);
        assert forall|k: int| 0 <= k < used.len() implies after[k] != h by {
            assert(after[k] == used[k]);
        }
        lemma_position_is(after, h, used.len() as int);
    }
}

impl Helpers {
    /// **The function index of `h`**: where it was first asked for, or the
    /// next one, recording it as used.
    pub fn index(&mut self, h: Helper) -> (r: u32)
        requires
            old(self).first + match position(old(self).used@, h) {
                Some(i) => i,
                None => old(self).used@.len() as int,
            } <= u32::MAX,
        ensures
            final(self).first == old(self).first,
            match position(old(self).used@, h) {
                Some(i) => final(self).used@ == old(self).used@ && r == old(self).first + i,
                None => final(self).used@ == old(self).used@.push(h) && r == old(self).first + old(
                    self,
                ).used@.len(),
            },
    {
        proof {
            lemma_position(self.used@, h);
        }
        let n: usize = self.used.len();
        let mut i: usize = 0;
        while i < n
            invariant
                n == self.used@.len(),
                self.used@ == old(self).used@,
                self.first == old(self).first,
                old(self).first + match position(old(self).used@, h) {
                    Some(i) => i,
                    None => old(self).used@.len() as int,
                } <= u32::MAX,
                i <= n,
                forall|k: int| 0 <= k < i ==> self.used@[k] != h,
            decreases n - i,
        {
            if self.used[i] == h {
                proof {
                    lemma_position_is(self.used@, h, i as int);
                }
                return self.first + (i as u32);
            }
            i = i + 1;
        }
        self.used.push(h);
        self.first + (n as u32)
    }
}

} // verus!
