//! Verified character and string utilities: ASCII case folding, splitting,
//! joining, trimming, and decimal parsing, specified over `Seq<char>` views.
use vstd::prelude::*;

verus! {

/// ASCII lower-casing of a single character; anything outside `A..Z` is kept.
pub open spec fn spec_lower_char(c: char) -> char {
    if 'A' <= c && c <= 'Z' {
        ((c as u32) + 32) as char
    } else {
        c
    }
}

/// ASCII lower-casing of a character sequence.
pub open spec fn lower_seq(s: Seq<char>) -> Seq<char> {
    s.map_values(|c: char| spec_lower_char(c))
}

/// The whitespace characters removed by trimming.
pub open spec fn spec_is_space(c: char) -> bool {
    c == ' ' || c == '\t' || c == '\r' || c == '\n'
}

/// The sequence with leading whitespace removed.
pub open spec fn trim_left(s: Seq<char>) -> Seq<char>
    decreases s.len(),
{
    if s.len() > 0 && spec_is_space(s[0]) {
        trim_left(s.drop_first())
    } else {
        s
    }
}

/// The sequence with trailing whitespace removed.
pub open spec fn trim_right(s: Seq<char>) -> Seq<char>
    decreases s.len(),
{
    if s.len() > 0 && spec_is_space(s.last()) {
        trim_right(s.drop_last())
    } else {
        s
    }
}

/// The sequence with leading and trailing whitespace removed.
pub open spec fn trim_seq(s: Seq<char>) -> Seq<char> {
    trim_right(trim_left(s))
}

/// Splitting on a separator character. Mirrors the usual convention: the
/// result always has one more segment than there are separators, so an empty
/// input yields one empty segment.
pub open spec fn split_seq(s: Seq<char>, sep: char) -> Seq<Seq<char>>
    decreases s.len(),
{
    if s.len() == 0 {
        seq![Seq::<char>::empty()]
    } else if s[0] == sep {
        seq![Seq::<char>::empty()] + split_seq(s.drop_first(), sep)
    } else {
        let rest = split_seq(s.drop_first(), sep);
        seq![seq![s[0]] + rest[0]] + rest.drop_first()
    }
}

/// Joining segments with a separator sequence.
pub open spec fn join_seqs(parts: Seq<Seq<char>>, sep: Seq<char>) -> Seq<char>
    decreases parts.len(),
{
    if parts.len() == 0 {
        Seq::<char>::empty()
    } else if parts.len() == 1 {
        parts[0]
    } else {
        parts[0] + sep + join_seqs(parts.drop_first(), sep)
    }
}

/// Whether a character is a decimal digit.
pub open spec fn spec_is_digit(c: char) -> bool {
    '0' <= c && c <= '9'
}

/// The numeric value of a decimal digit.
pub open spec fn spec_digit_val(c: char) -> nat {
    ((c as u32) - 48) as nat
}

/// Whether every character of the sequence is a decimal digit.
pub open spec fn all_digits(s: Seq<char>) -> bool {
    forall|i: int| 0 <= i < s.len() ==> spec_is_digit(#[trigger] s[i])
}

/// The numeric value of a digit sequence, most significant digit first.
pub open spec fn digits_val(s: Seq<char>) -> nat
    decreases s.len(),
{
    if s.len() == 0 {
        0
    } else {
        digits_val(s.drop_last()) * 10 + spec_digit_val(s.last())
    }
}

/// The unsigned integer denoted by the sequence: defined exactly when the
/// sequence is non-empty, all digits, and the value fits in a `u32`.
pub open spec fn parse_u32_seq(s: Seq<char>) -> Option<u32> {
    if s.len() > 0 && all_digits(s) && digits_val(s) <= u32::MAX as nat {
        Some(digits_val(s) as u32)
    } else {
        None
    }
}

/// Splitting distributes over appending one character: the snoc form of
/// `split_seq`, used to verify the left-to-right scanning loop.
pub proof fn lemma_split_snoc(s: Seq<char>, c: char, sep: char)
    ensures
        c == sep ==> split_seq(s.push(c), sep) == split_seq(s, sep) + seq![
            Seq::<char>::empty(),
        ],
        c != sep ==> split_seq(s.push(c), sep) == split_seq(s, sep).update(
            split_seq(s, sep).len() - 1,
            split_seq(s, sep).last().push(c),
        ),
    decreases s.len(),
{
    lemma_split_len(s, sep);
    if s.len() == 0 {
        assert(s =~= Seq::<char>::empty());
        assert(s.push(c).drop_first() =~= Seq::<char>::empty());
        assert(s.push(c)[0] == c);
        assert(split_seq(Seq::<char>::empty(), sep) == seq![Seq::<char>::empty()]);
        if c == sep {
            assert(split_seq(s.push(c), sep) =~~= split_seq(s, sep) + seq![Seq::<char>::empty()]);
        } else {
            assert(split_seq(s.push(c), sep) =~~= split_seq(s, sep).update(
                0,
                split_seq(s, sep).last().push(c),
            ));
        }
    } else {
        assert(s.push(c).drop_first() =~= s.drop_first().push(c));
        lemma_split_snoc(s.drop_first(), c, sep);
        lemma_split_len(s.drop_first(), sep);
        if c == sep {
            assert(split_seq(s.push(c), sep) =~~= split_seq(s, sep) + seq![Seq::<char>::empty()]);
        } else {
            assert(split_seq(s.push(c), sep) =~~= split_seq(s, sep).update(
                split_seq(s, sep).len() - 1,
                split_seq(s, sep).last().push(c),
            ));
        }
    }
}

/// A split always has at least one segment.
pub proof fn lemma_split_len(s: Seq<char>, sep: char)
    ensures
        split_seq(s, sep).len() >= 1,
    decreases s.len(),
{
    if s.len() > 0 {
        lemma_split_len(s.drop_first(), sep);
    }
}

/// Joining distributes over appending one segment: the snoc form of
/// `join_seqs`, used to verify the joining loop.
pub proof fn lemma_join_snoc(parts: Seq<Seq<char>>, part: Seq<char>, sep: Seq<char>)
    requires
        parts.len() >= 1,
    ensures
        join_seqs(parts.push(part), sep) == join_seqs(parts, sep) + sep + part,
    decreases parts.len(),
{
    if parts.len() == 1 {
        assert(parts.push(part)[0] == parts[0]);
        assert(parts.push(part).drop_first() =~~= seq![part]);
        assert(join_seqs(seq![part], sep) == part);
        assert(join_seqs(parts.push(part), sep) == parts[0] + sep + part);
    } else {
        assert(parts.push(part).drop_first() =~= parts.drop_first().push(part));
        lemma_join_snoc(parts.drop_first(), part, sep);
        assert(join_seqs(parts.push(part), sep) == parts[0] + sep + (join_seqs(
            parts.drop_first(),
            sep,
        ) + sep + part));
        assert(join_seqs(parts.push(part), sep) =~= join_seqs(parts, sep) + sep + part);
    }
}

/// Lower-cases one ASCII letter; other characters pass through unchanged.
pub fn lower_char(c: char) -> (r: char)
    ensures
        r == spec_lower_char(c),
{
    match c {
        'A' => 'a',
        'B' => 'b',
        'C' => 'c',
        'D' => 'd',
        'E' => 'e',
        'F' => 'f',
        'G' => 'g',
        'H' => 'h',
        'I' => 'i',
        'J' => 'j',
        'K' => 'k',
        'L' => 'l',
        'M' => 'm',
        'N' => 'n',
        'O' => 'o',
        'P' => 'p',
        'Q' => 'q',
        'R' => 'r',
        'S' => 's',
        'T' => 't',
        'U' => 'u',
        'V' => 'v',
        'W' => 'w',
        'X' => 'x',
        'Y' => 'y',
        'Z' => 'z',
        _ => c,
    }
}

/// Whether the character is trimmable whitespace.
pub fn is_space(c: char) -> (r: bool)
    ensures
        r == spec_is_space(c),
{
    c == ' ' || c == '\t' || c == '\r' || c == '\n'
}

/// Relies on `String::push`: appends one character at the end of the string.
#[verifier::external_body]
fn push_char(s: &mut String, c: char)
    ensures
        final(s)@ == old(s)@.push(c),
{
    s.push(c);
}

/// The characters of a string, as a vector.
pub fn str_to_chars(s: &str) -> (v: Vec<char>)
    ensures
        v@ == s@,
{
    let n = s.unicode_len();
    let mut v: Vec<char> = Vec::new();
    let mut i: usize = 0;
    while i < n
        invariant
            n == s@.len(),
            i <= n,
            v@ == s@.take(i as int),
        decreases n - i,
    {
        v.push(s.get_char(i));
        assert(s@.take(i + 1) =~= s@.take(i as int).push(s@[i as int]));
        i = i + 1;
    }
    assert(s@.take(n as int) =~= s@);
    v
}

/// A string holding exactly the given characters.
pub fn chars_to_string(v: &Vec<char>) -> (s: String)
    ensures
        s@ == v@,
{
    let mut s = String::new();
    let mut i: usize = 0;
    while i < v.len()
        invariant
            i <= v@.len(),
            s@ == v@.take(i as int),
        decreases v@.len() - i,
    {
        push_char(&mut s, v[i]);
        assert(v@.take(i + 1) =~= v@.take(i as int).push(v@[i as int]));
        i = i + 1;
    }
    assert(v@.take(v@.len() as int) =~= v@);
    s
}

/// Whether two string slices hold the same characters.
pub fn str_eq(a: &str, b: &str) -> (r: bool)
    ensures
        r == (a@ == b@),
{
    let an = a.unicode_len();
    let bn = b.unicode_len();
    if an != bn {
        return false;
    }
    let mut i: usize = 0;
    while i < an
        invariant
            an == a@.len(),
            an == b@.len(),
            i <= an,
            forall|j: int| 0 <= j < i ==> a@[j] == b@[j],
        decreases an - i,
    {
        if a.get_char(i) != b.get_char(i) {
            return false;
        }
        i = i + 1;
    }
    proof {
        assert(a@ =~= b@);
    }
    true
}

/// The vector with leading and trailing whitespace removed.
pub fn trim_chars(v: &Vec<char>) -> (r: Vec<char>)
    ensures
        r@ == trim_seq(v@),
{
    let n = v.len();
    let mut start: usize = 0;
    proof {
        assert(v@.skip(0) =~= v@);
    }
    while start < n && is_space(v[start])
        invariant
            n == v@.len(),
            start <= n,
            trim_left(v@) == trim_left(v@.skip(start as int)),
        decreases n - start,
    {
        assert(v@.skip(start as int).drop_first() =~= v@.skip(start + 1));
        start = start + 1;
    }
    // at this point the suffix starting at `start` begins with a non-space
    assert(trim_left(v@) == v@.skip(start as int));
    let mut end: usize = n;
    proof {
        assert(v@.skip(start as int).take(n - start) =~= v@.skip(start as int));
    }
    while end > start && is_space(v[end - 1])
        invariant
            n == v@.len(),
            start <= end <= n,
            trim_left(v@) == v@.skip(start as int),
            trim_right(v@.skip(start as int)) == trim_right(
                v@.skip(start as int).take(end - start),
            ),
        decreases end,
    {
        assert(v@.skip(start as int).take(end - start).drop_last() =~= v@.skip(start as int).take(
            end - 1 - start,
        ));
        end = end - 1;
    }
    proof {
        if end > start {
            assert(v@.skip(start as int).take(end - start).last() == v@[end - 1]);
        }
    }
    assert(trim_seq(v@) == v@.skip(start as int).take(end - start));
    let mut r: Vec<char> = Vec::new();
    let mut i: usize = start;
    while i < end
        invariant
            start <= i <= end <= n,
            n == v@.len(),
            r@ == v@.skip(start as int).take(i - start),
        decreases end - i,
    {
        r.push(v[i]);
        assert(v@.skip(start as int).take(i + 1 - start) =~= v@.skip(start as int).take(
            i - start,
        ).push(v@[i as int]));
        i = i + 1;
    }
    r
}

/// The segments of the vector around each occurrence of the separator.
pub fn split_chars(v: &Vec<char>, sep: char) -> (r: Vec<Vec<char>>)
    ensures
        r.deep_view() == split_seq(v@, sep),
        r@.len() >= 1,
{
    let mut r: Vec<Vec<char>> = Vec::new();
    let mut cur: Vec<char> = Vec::new();
    let mut i: usize = 0;
    proof {
        lemma_split_len(v@, sep);
    }
    while i < v.len()
        invariant
            i <= v@.len(),
            r.deep_view().push(cur@) =~~= split_seq(v@.take(i as int), sep),
        decreases v@.len() - i,
    {
        proof {
            lemma_split_snoc(v@.take(i as int), v@[i as int], sep);
            assert(v@.take(i + 1) =~= v@.take(i as int).push(v@[i as int]));
            lemma_split_len(v@.take(i as int), sep);
        }
        let c = v[i];
        if c == sep {
            r.push(cur);
            cur = Vec::new();
            assert(r.deep_view().push(cur@) =~~= split_seq(v@.take(i + 1), sep));
        } else {
            cur.push(c);
            assert(r.deep_view().push(cur@) =~~= split_seq(v@.take(i as int), sep).update(
                split_seq(v@.take(i as int), sep).len() - 1,
                split_seq(v@.take(i as int), sep).last().push(c),
            ));
        }
        i = i + 1;
    }
    assert(v@.take(v@.len() as int) =~= v@);
    r.push(cur);
    assert(r.deep_view() =~~= split_seq(v@, sep));
    r
}

/// The strings joined with the separator character between them.
pub fn join_strings(parts: &Vec<String>, sep: char) -> (r: String)
    ensures
        r@ == join_seqs(parts.deep_view(), seq![sep]),
{
    let mut r = String::new();
    let mut i: usize = 0;
    while i < parts.len()
        invariant
            i <= parts@.len(),
            r@ == join_seqs(parts.deep_view().take(i as int), seq![sep]),
        decreases parts@.len() - i,
    {
        if i > 0 {
            push_char(&mut r, sep);
        }
        r.append(parts[i].as_str());
        proof {
            assert(parts.deep_view().take(i + 1) =~= parts.deep_view().take(i as int).push(
                parts@[i as int].deep_view(),
            ));
            if i > 0 {
                lemma_join_snoc(parts.deep_view().take(i as int), parts@[i as int]@, seq![sep]);
            } else {
                assert(join_seqs(parts.deep_view().take(1), seq![sep]) == parts@[0]@);
                assert(Seq::<char>::empty() + parts@[0]@ =~= parts@[0]@);
            }
        }
        i = i + 1;
    }
    assert(parts.deep_view().take(parts@.len() as int) =~= parts.deep_view());
    r
}

/// The unsigned integer denoted by the characters, when there is one.
pub fn parse_u32_chars(v: &Vec<char>) -> (r: Option<u32>)
    ensures
        r == parse_u32_seq(v@),
{
    if v.len() == 0 {
        return None;
    }
    let mut acc: u64 = 0;
    let mut i: usize = 0;
    while i < v.len()
        invariant
            i <= v@.len(),
            all_digits(v@.take(i as int)),
            acc == digits_val(v@.take(i as int)),
            acc <= u32::MAX,
        decreases v@.len() - i,
    {
        let c = v[i];
        let d: u64 = match c {
            '0' => 0,
            '1' => 1,
            '2' => 2,
            '3' => 3,
            '4' => 4,
            '5' => 5,
            '6' => 6,
            '7' => 7,
            '8' => 8,
            '9' => 9,
            _ => {
                proof {
                    assert(!spec_is_digit(v@[i as int]));
                }
                return None;
            },
        };
        assert(spec_is_digit(v@[i as int]) && d == spec_digit_val(v@[i as int]));
        proof {
            assert(v@.take(i + 1).drop_last() =~= v@.take(i as int));
            assert(v@.take(i + 1).last() == v@[i as int]);
        }
        acc = acc * 10 + d;
        if acc > 0xffff_ffff {
            proof {
                lemma_digits_val_grows(v@.take(i + 1), v@);
            }
            return None;
        }
        i = i + 1;
    }
    assert(v@.take(v@.len() as int) =~= v@);
    Some(acc as u32)
}

/// A digit value never shrinks as more digits follow: the value of a prefix
/// bounds the value of the whole.
proof fn lemma_digits_val_grows(p: Seq<char>, s: Seq<char>)
    requires
        p.len() <= s.len(),
        p =~= s.take(p.len() as int),
    ensures
        digits_val(p) <= digits_val(s),
    decreases s.len() - p.len(),
{
    if p.len() < s.len() {
        let q = s.take(p.len() as int + 1);
        assert(q.drop_last() =~= p);
        assert(digits_val(q) == digits_val(p) * 10 + spec_digit_val(q.last()));
        assert(digits_val(p) * 10 >= digits_val(p)) by (nonlinear_arith);
        lemma_digits_val_grows(q, s);
    } else {
        assert(p =~= s);
    }
}

/// Whether one of the strings holds exactly these characters.
pub fn contains_string(v: &Vec<String>, s: &str) -> (r: bool)
    ensures
        r == v.deep_view().contains(s@),
{
    let mut i: usize = 0;
    while i < v.len()
        invariant
            i <= v@.len(),
            forall|j: int| 0 <= j < i ==> v.deep_view()[j] != s@,
        decreases v@.len() - i,
    {
        if str_eq(v[i].as_str(), s) {
            assert(v.deep_view()[i as int] == s@);
            return true;
        }
        i = i + 1;
    }
    proof {
        assert forall|j: int| 0 <= j < v.deep_view().len() implies v.deep_view()[j] != s@ by {
        }
        if v.deep_view().contains(s@) {
            let j = choose|j: int| 0 <= j < v.deep_view().len() && v.deep_view()[j] == s@;
            assert(false);
        }
    }
    false
}

/// A vector of characters reads the same shallowly and deeply.
pub proof fn lemma_deep_view_chars(v: Vec<char>)
    ensures
        v.deep_view() == v@,
{
    assert(v.deep_view() =~= v@);
}

/// The character of one decimal digit.
pub open spec fn digit_char(d: nat) -> char {
    if d == 0 {
        '0'
    } else if d == 1 {
        '1'
    } else if d == 2 {
        '2'
    } else if d == 3 {
        '3'
    } else if d == 4 {
        '4'
    } else if d == 5 {
        '5'
    } else if d == 6 {
        '6'
    } else if d == 7 {
        '7'
    } else if d == 8 {
        '8'
    } else {
        '9'
    }
}

/// The decimal rendering of a number, most significant digit first.
pub open spec fn dec_str(n: nat) -> Seq<char>
    decreases n,
{
    if n < 10 {
        seq![digit_char(n)]
    } else {
        dec_str(n / 10).push(digit_char(n % 10))
    }
}

/// The character of one decimal digit.
fn digit_to_char(d: usize) -> (r: char)
    requires
        d < 10,
    ensures
        r == digit_char(d as nat),
{
    match d {
        0 => '0',
        1 => '1',
        2 => '2',
        3 => '3',
        4 => '4',
        5 => '5',
        6 => '6',
        7 => '7',
        8 => '8',
        _ => '9',
    }
}

/// The decimal rendering of a number.
pub fn usize_to_string(n: usize) -> (r: String)
    ensures
        r@ == dec_str(n as nat),
    decreases n,
{
    if n < 10 {
        let mut s = String::new();
        push_char(&mut s, digit_to_char(n));
        proof {
            assert(s@ =~= dec_str(n as nat));
        }
        s
    } else {
        let mut s = usize_to_string(n / 10);
        push_char(&mut s, digit_to_char(n % 10));
        s
    }
}

} // verus!
