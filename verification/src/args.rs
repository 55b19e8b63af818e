//! The arguments that the host hands to a plugin.
//!
//! Each argument has the shape `key=value`. The first one is the path of the
//! plugin itself and is never read as a pair. A value is a truth value where
//! it is one of eight fixed words, else a signed 64-bit number where it reads
//! as one, else a string.

use vstd::hash_map::StringHashMap;
use vstd::prelude::*;

verus! {

/// What a typed argument value stands for.
pub enum ArgValue {
    Bool(bool),
    Int(i64),
    Str(Seq<char>),
}

/// The value of one plugin argument.
#[derive(Debug, Clone, PartialEq, Eq)]
pub enum QEMUArg {
    Bool(bool),
    Int(i64),
    Str(String),
}

impl View for QEMUArg {
    type V = ArgValue;

    open spec fn view(&self) -> ArgValue {
        match self {
            QEMUArg::Bool(b) => ArgValue::Bool(*b),
            QEMUArg::Int(n) => ArgValue::Int(*n),
            QEMUArg::Str(s) => ArgValue::Str(s@),
        }
    }
}

/// Whether `s` is one of the words for true: `true`, `1`, `yes`, `on`. The
/// match is exact, letter case included.
pub open spec fn is_true_word(s: Seq<char>) -> bool {
    s == "true"@ || s == "1"@ || s == "yes"@ || s == "on"@
}

/// Whether `s` is one of the words for false: `false`, `0`, `no`, `off`.
pub open spec fn is_false_word(s: Seq<char>) -> bool {
    s == "false"@ || s == "0"@ || s == "no"@ || s == "off"@
}

/// Whether `c` is one of the ten decimal digits.
pub open spec fn is_digit(c: char) -> bool {
    '0' <= c <= '9'
}

/// The number that a run of decimal digits writes.
pub open spec fn digits_value(s: Seq<char>) -> int
    decreases s.len(),
{
    if s.len() == 0 {
        0
    } else {
        10 * digits_value(s.drop_last()) + (s.last() as int - '0' as int)
    }
}

/// The digits of a decimal numeral: what follows its sign, if it has one.
pub open spec fn numeral_digits(s: Seq<char>) -> Seq<char> {
    if s.len() > 0 && (s[0] == '-' || s[0] == '+') {
        s.skip(1)
    } else {
        s
    }
}

/// The number that a decimal numeral writes, whatever its size.
pub open spec fn numeral_value(s: Seq<char>) -> int {
    if s.len() > 0 && s[0] == '-' {
        -digits_value(numeral_digits(s))
    } else {
        digits_value(numeral_digits(s))
    }
}

/// The signed 64-bit number that `s` reads as: an optional `+` or `-`, then
/// one or more decimal digits and nothing else, the whole within the range
/// of the type. Any other string reads as no number.
pub open spec fn decimal_i64(s: Seq<char>) -> Option<i64> {
    let digits = numeral_digits(s);
    if digits.len() > 0 && (forall|i: int| 0 <= i < digits.len() ==> is_digit(#[trigger] digits[i]))
        && i64::MIN <= numeral_value(s) <= i64::MAX {
        Some(numeral_value(s) as i64)
    } else {
        None
    }
}

/// The typed value of the text `s`: the words for true and false come
/// first, then numbers, and everything else is a string.
pub open spec fn typed(s: Seq<char>) -> ArgValue {
    if is_true_word(s) {
        ArgValue::Bool(true)
    } else if is_false_word(s) {
        ArgValue::Bool(false)
    } else {
        match decimal_i64(s) {
            Some(n) => ArgValue::Int(n),
            None => ArgValue::Str(s),
        }
    }
}

/// Whether the first `=` of `s` stands at index `i`.
pub open spec fn is_split_at(s: Seq<char>, i: int) -> bool {
    &&& 0 <= i < s.len()
    &&& s[i] == '='
    &&& forall|j: int| 0 <= j < i ==> s[j] != '='
}

/// Whether `s` has the shape `key=value`, that is, holds an `=`.
pub open spec fn is_pair(s: Seq<char>) -> bool {
    exists|i: int| is_split_at(s, i)
}

/// The index of the first `=` of a pair.
pub open spec fn split_index(s: Seq<char>) -> int {
    choose|i: int| is_split_at(s, i)
}

/// The key of a pair: what stands before its first `=`.
pub open spec fn pair_key(s: Seq<char>) -> Seq<char> {
    s.take(split_index(s))
}

/// The value of a pair: what stands after its first `=`.
pub open spec fn pair_value(s: Seq<char>) -> Seq<char> {
    s.skip(split_index(s) + 1)
}

/// The mapping that a list of arguments gives. The first argument is left
/// out, so is every argument without an `=`; where a key comes twice, the
/// later value stands.
pub open spec fn parsed_args(raw: Seq<Seq<char>>) -> Map<Seq<char>, ArgValue>
    decreases raw.len(),
{
    if raw.len() <= 1 {
        Map::empty()
    } else {
        let before = parsed_args(raw.drop_last());
        if is_pair(raw.last()) {
            before.insert(pair_key(raw.last()), typed(pair_value(raw.last())))
        } else {
            before
        }
    }
}

/// The first `=` of a string stands at one place only.
pub proof fn lemma_split_unique(s: Seq<char>, i: int, j: int)
    requires
        is_split_at(s, i),
        is_split_at(s, j),
    ensures
        i == j,
{
}

/// Where the first `=` of a string stands at `i`, the string is a pair and
/// splits there.
pub proof fn lemma_split_index(s: Seq<char>, i: int)
    requires
        is_split_at(s, i),
    ensures
        is_pair(s),
        split_index(s) == i,
        pair_key(s) == s.take(i),
        pair_value(s) == s.skip(i + 1),
{
    lemma_split_unique(s, i, split_index(s));
}

/// The characters of a string.
fn chars_of(s: &str) -> (v: Vec<char>)
    ensures
        v@ == s@,
{
    let mut v: Vec<char> = Vec::new();
    for c in it: s.chars()
        invariant
            v@ == it.seq().take(it.index() as int),
            it.seq() == s@,
    {
        v.push(c);
    }
    v
}

/// Whether `a` holds exactly the characters of `word`.
fn is_word(a: &Vec<char>, text: &str) -> (r: bool)
    ensures
        r == (a@ == text@),
{
    let word = chars_of(text);
    if a.len() != word.len() {
        return false;
    }
    let mut i: usize = 0;
    while i < a.len()
        invariant
            i <= a.len(),
            a.len() == word.len(),
            word@ == text@,
            forall|j: int| 0 <= j < i ==> a@[j] == word@[j],
        decreases a.len() - i,
    {
        if a[i] != word[i] {
            return false;
        }
        i += 1;
    }
    assert(a@ =~= text@);
    true
}

/// A longer run of digits writes no smaller number than its beginning.
proof fn lemma_digits_value_grows(s: Seq<char>, i: int)
    requires
        0 <= i <= s.len(),
        forall|k: int| 0 <= k < s.len() ==> is_digit(#[trigger] s[k]),
    ensures
        0 <= digits_value(s.take(i)) <= digits_value(s),
    decreases s.len() - i,
{
    lemma_digits_value_nonneg(s.take(i));
    if i == s.len() {
        assert(s.take(i) =~= s);
    } else {
        lemma_digits_value_grows(s, i + 1);
        assert(s.take(i + 1).drop_last() =~= s.take(i));
        assert(is_digit(s[i]));
    }
}

proof fn lemma_digits_value_nonneg(s: Seq<char>)
    requires
        forall|k: int| 0 <= k < s.len() ==> is_digit(#[trigger] s[k]),
    ensures
        0 <= digits_value(s),
    decreases s.len(),
{
    if s.len() > 0 {
        lemma_digits_value_nonneg(s.drop_last());
        assert(is_digit(s[s.len() - 1]));
    }
}

/// Reads a signed 64-bit decimal number.
fn parse_i64(cs: &Vec<char>) -> (r: Option<i64>)
    ensures
        r == decimal_i64(cs@),
{
    let n = cs.len();
    if n == 0 {
        return None;
    }
    let negative = cs[0] == '-';
    let start: usize = if cs[0] == '-' || cs[0] == '+' {
        1
    } else {
        0
    };
    if start == n {
        return None;
    }
    let ghost digits = numeral_digits(cs@);
    assert(digits == cs@.skip(start as int));
    let limit: u64 = 0x8000_0000_0000_0000;
    let mut acc: u64 = 0;
    let mut i: usize = start;
    while i < n
        invariant
            start <= i <= n,
            n == cs.len(),
            digits == cs@.skip(start as int),
            digits == numeral_digits(cs@),
            limit == 0x8000_0000_0000_0000,
            forall|k: int| 0 <= k < i - start ==> is_digit(#[trigger] digits[k]),
            acc == digits_value(digits.take(i - start)),
            acc <= limit,
        decreases n - i,
    {
        let c = cs[i];
        assert(digits[i - start] == c);
        if c < '0' || c > '9' {
            assert(!is_digit(digits[i - start]));
            return None;
        }
        let d: u64 = (c as u32 - '0' as u32) as u64;
        proof {
            assert(digits.take(i - start + 1).drop_last() =~= digits.take(i - start));
            assert(digits.take(i - start + 1).last() == c);
        }
        let ghost next = 10 * acc + d;
        if acc > (limit - d) / 10 {
            proof {
                assert(next > limit);
                if forall|k: int| 0 <= k < digits.len() ==> is_digit(#[trigger] digits[k]) {
                    lemma_digits_value_grows(digits, i - start + 1);
                }
            }
            return None;
        }
        acc = acc * 10 + d;
        i += 1;
    }
    assert(digits.take(n - start) =~= digits);
    if negative {
        if acc == limit {
            Some(i64::MIN)
        } else {
            Some(-(acc as i64))
        }
    } else if acc == limit {
        None
    } else {
        Some(acc as i64)
    }
}

impl QEMUArg {
    /// The typed value of the text of an argument.
    pub fn new(arg: &str) -> (r: QEMUArg)
        ensures
            r@ == typed(arg@),
    {
        let cs = chars_of(arg);
        if is_word(&cs, "true") || is_word(&cs, "1") || is_word(&cs, "yes") || is_word(&cs, "on") {
            QEMUArg::Bool(true)
        } else if is_word(&cs, "false") || is_word(&cs, "0") || is_word(&cs, "no") || is_word(
            &cs,
            "off",
        ) {
            QEMUArg::Bool(false)
        } else {
            match parse_i64(&cs) {
                Some(n) => QEMUArg::Int(n),
                None => QEMUArg::Str(String::from_str(arg)),
            }
        }
    }
}

/// The texts of a list of strings.
pub open spec fn texts(raw: Seq<String>) -> Seq<Seq<char>> {
    raw.map_values(|s: String| s@)
}

/// The index of the first `=` of `arg`, if it has one.
fn find_split(arg: &str) -> (r: Option<usize>)
    ensures
        match r {
            Some(i) => is_split_at(arg@, i as int),
            None => !is_pair(arg@),
        },
{
    let cs = chars_of(arg);
    let mut i: usize = 0;
    while i < cs.len()
        invariant
            i <= cs.len(),
            cs@ == arg@,
            forall|j: int| 0 <= j < i ==> arg@[j] != '=',
        decreases cs.len() - i,
    {
        if cs[i] == '=' {
            return Some(i);
        }
        i += 1;
    }
    assert forall|k: int| !is_split_at(arg@, k) by {}
    None
}

/// The arguments of a plugin: as the host gave them, and as a mapping from
/// keys to typed values.
pub struct Args {
    /// The arguments as the host gave them, the plugin's path first.
    pub raw: Vec<String>,
    /// The pairs among the arguments, each value typed.
    pub args: StringHashMap<QEMUArg>,
}

impl View for Args {
    type V = Map<Seq<char>, ArgValue>;

    open spec fn view(&self) -> Map<Seq<char>, ArgValue> {
        self.args@.map_values(|v: QEMUArg| v@)
    }
}

impl Args {
    /// Whether the mapping is the one that the raw arguments give.
    pub open spec fn wf(&self) -> bool {
        self@ == parsed_args(texts(self.raw@))
    }

    /// Reads the arguments that the host handed over. Nothing is rejected:
    /// an argument without an `=` is passed over, and any key is taken.
    pub fn new(raw: Vec<String>) -> (r: Args)
        ensures
            r.raw == raw,
            r@ == parsed_args(texts(raw@)),
            r.wf(),
    {
        let mut args: StringHashMap<QEMUArg> = StringHashMap::new();
        let ghost all = texts(raw@);
        let mut i: usize = 1;
        if raw.len() <= 1 {
            assert(args@.map_values(|v: QEMUArg| v@) =~= parsed_args(all));
            return Args { raw, args };
        }
        proof {
            assert(parsed_args(all.take(1)) =~= Map::<Seq<char>, ArgValue>::empty());
            assert(args@.map_values(|v: QEMUArg| v@) =~= Map::<Seq<char>, ArgValue>::empty());
        }
        while i < raw.len()
            invariant
                1 <= i <= raw.len(),
                all == texts(raw@),
                args@.map_values(|v: QEMUArg| v@) == parsed_args(all.take(i as int)),
            decreases raw.len() - i,
        {
            let arg = raw[i].as_str();
            let ghost before = args@;
            proof {
                assert(all.take(i as int + 1).drop_last() =~= all.take(i as int));
                assert(all.take(i as int + 1).last() == arg@);
            }
            match find_split(arg) {
                Some(at) => {
                    proof {
                        lemma_split_index(arg@, at as int);
                    }
                    let total = arg.unicode_len();
                    let key = String::from_str(arg.substring_char(0, at));
                    let value = QEMUArg::new(arg.substring_char(at + 1, total));
                    args.insert(key, value);
                    assert(args@.map_values(|v: QEMUArg| v@) =~= before.map_values(
                        |v: QEMUArg| v@,
                    ).insert(key@, value@));
                },
                None => {},
            }
            i += 1;
        }
        assert(all.take(raw.len() as int) =~= all);
        Args { raw, args }
    }

    /// The value that stands for `key`, if the arguments hold one.
    pub fn get(&self, key: &str) -> (r: Option<&QEMUArg>)
        ensures
            match r {
                Some(v) => self@.contains_key(key@) && self@[key@] == v@,
                None => !self@.contains_key(key@),
            },
    {
        self.args.get(key)
    }

    /// The truth value that stands for `key`; none where the key is absent
    /// or holds a number or a string.
    pub fn get_bool(&self, key: &str) -> (r: Option<bool>)
        ensures
            r == (if self@.contains_key(key@) && self@[key@] is Bool {
                Some(self@[key@]->Bool_0)
            } else {
                None
            }),
    {
        match self.args.get(key) {
            Some(QEMUArg::Bool(b)) => Some(*b),
            _ => None,
        }
    }
}

/// A pair `key=value` among the arguments, with no later pair of the same
/// key, gives the key the typed value; and the first argument gives no key.
pub proof fn lemma_pair_is_mapped(raw: Seq<Seq<char>>, at: int, key: Seq<char>, value: Seq<char>)
    requires
        1 <= at < raw.len(),
        raw[at] == key + seq!['='] + value,
        !key.contains('='),
        forall|j: int| at < j < raw.len() && is_pair(raw[j]) ==> pair_key(raw[j]) != key,
    ensures
        parsed_args(raw).contains_key(key),
        parsed_args(raw)[key] == typed(value),
    decreases raw.len(),
{
    let last = raw.last();
    let front = raw.drop_last();
    if at == raw.len() - 1 {
        assert forall|j: int| 0 <= j < key.len() implies last[j] != '=' by {
            assert(key.contains(last[j]));
        }
        lemma_split_index(last, key.len() as int);
        assert(last.take(key.len() as int) =~= key);
        assert(last.skip(key.len() as int + 1) =~= value);
    } else {
        assert forall|j: int| at < j < front.len() && is_pair(front[j]) implies pair_key(front[j])
            != key by {
            assert(front[j] == raw[j]);
        }
        lemma_pair_is_mapped(front, at, key, value);
    }
}

/// The first argument never becomes a key: the mapping is the same whatever
/// stands first.
pub proof fn lemma_first_argument_ignored(raw: Seq<Seq<char>>, other: Seq<char>)
    requires
        raw.len() >= 1,
    ensures
        parsed_args(raw) == parsed_args(raw.update(0, other)),
        parsed_args(seq![other]) == Map::<Seq<char>, ArgValue>::empty(),
    decreases raw.len(),
{
    if raw.len() > 1 {
        lemma_first_argument_ignored(raw.drop_last(), other);
        assert(raw.update(0, other).drop_last() =~= raw.drop_last().update(0, other));
    }
}

} // verus!
