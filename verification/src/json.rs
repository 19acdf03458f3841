//! Canonical JSON text: the exact character sequences this crate writes for
//! strings, numbers and `null`, and the parsers that read them back. The
//! serializers are specified by spec functions on views; each parser is
//! specified by a spec-level parsing function that the executable code follows
//! exactly, so round trips can be proved once at the spec level.

use vstd::prelude::*;

verus! {

/// Characters that can stand inside a canonical JSON string: everything at or
/// above the space character (control characters are never written).
pub open spec fn str_ok(s: Seq<char>) -> bool {
    forall|k: int| 0 <= k < s.len() ==> (#[trigger] s[k] as u32) >= 0x20
}

/// JSON escaping: a quote or a backslash gets a backslash before it; every
/// other character stands as itself.
pub open spec fn jser_esc(s: Seq<char>) -> Seq<char>
    decreases s.len(),
{
    if s.len() == 0 {
        Seq::empty()
    } else {
        let head: Seq<char> = if s[0] == '"' {
            seq!['\\', '"']
        } else if s[0] == '\\' {
            seq!['\\', '\\']
        } else {
            seq![s[0]]
        };
        head + jser_esc(s.drop_first())
    }
}

/// A JSON string: the escaped content between two quotes.
pub open spec fn jser_string(s: Seq<char>) -> Seq<char> {
    seq!['"'] + jser_esc(s) + seq!['"']
}

pub open spec fn spec_digit(d: int) -> char {
    if d == 0 { '0' } else if d == 1 { '1' } else if d == 2 { '2' } else if d == 3 { '3' }
    else if d == 4 { '4' } else if d == 5 { '5' } else if d == 6 { '6' } else if d == 7 { '7' }
    else if d == 8 { '8' } else { '9' }
}

/// Decimal digits of `n`, most significant first, no leading zeros.
pub open spec fn jser_dec(n: nat) -> Seq<char>
    decreases n,
{
    if n < 10 {
        seq![spec_digit(n as int)]
    } else {
        jser_dec(n / 10) + seq![spec_digit((n % 10) as int)]
    }
}

/// An optional string: `null` or a JSON string.
pub open spec fn jser_opt_string(o: Option<Seq<char>>) -> Seq<char> {
    match o {
        Option::Some(s) => jser_string(s),
        Option::None => "null"@,
    }
}

/// An optional port number: `null` or decimal digits.
pub open spec fn jser_opt_u16(o: Option<u16>) -> Seq<char> {
    match o {
        Option::Some(n) => jser_dec(n as nat),
        Option::None => "null"@,
    }
}

pub open spec fn opt_str_ok(o: Option<Seq<char>>) -> bool {
    match o {
        Option::Some(s) => str_ok(s),
        Option::None => true,
    }
}

// --- spec-level parsers ---

/// Content of a JSON string after the opening quote: the unescaped characters
/// and the index just past the closing quote.
pub open spec fn jp_str_rest(s: Seq<char>, i: int) -> Option<(Seq<char>, int)>
    decreases s.len() - i when 0 <= i <= s.len()
{
    if i >= s.len() {
        Option::None
    } else if s[i] == '"' {
        Option::Some((Seq::empty(), i + 1))
    } else if s[i] == '\\' {
        if i + 1 < s.len() && (s[i + 1] == '"' || s[i + 1] == '\\') {
            match jp_str_rest(s, i + 2) {
                Option::Some((t, j)) => Option::Some((seq![s[i + 1]] + t, j)),
                Option::None => Option::None,
            }
        } else {
            Option::None
        }
    } else if (s[i] as u32) >= 0x20 {
        match jp_str_rest(s, i + 1) {
            Option::Some((t, j)) => Option::Some((seq![s[i]] + t, j)),
            Option::None => Option::None,
        }
    } else {
        Option::None
    }
}

/// A JSON string starting at `i`.
pub open spec fn jp_string(s: Seq<char>, i: int) -> Option<(Seq<char>, int)> {
    if 0 <= i && i < s.len() && s[i] == '"' {
        jp_str_rest(s, i + 1)
    } else {
        Option::None
    }
}

pub open spec fn is_digit(c: char) -> bool {
    48 <= (c as u32) <= 57
}

pub open spec fn digit_val(c: char) -> int {
    (c as u32) - 48
}

/// End of the digit run that starts at `i`.
pub open spec fn digits_end(s: Seq<char>, i: int) -> int
    decreases s.len() - i when 0 <= i <= s.len()
{
    if i < s.len() && is_digit(s[i]) {
        digits_end(s, i + 1)
    } else {
        i
    }
}

/// Value of the digits `s[i..j]`.
pub open spec fn digits_val(s: Seq<char>, i: int, j: int) -> int
    decreases j - i when i <= j
{
    if i >= j {
        0
    } else {
        digits_val(s, i, j - 1) * 10 + digit_val(s[j - 1])
    }
}

/// A canonical `u16`: one to five digits, no leading zero, value at most
/// `u16::MAX`.
pub open spec fn jp_u16(s: Seq<char>, i: int) -> Option<(u16, int)> {
    if !(0 <= i <= s.len()) {
        Option::None
    } else {
        let j = digits_end(s, i);
        if j == i {
            Option::None
        } else if j - i > 5 {
            Option::None
        } else if s[i] == '0' && j - i > 1 {
            Option::None
        } else if digits_val(s, i, j) > 65535 {
            Option::None
        } else {
            Option::Some((digits_val(s, i, j) as u16, j))
        }
    }
}

/// Whether the literal `t` stands at `i` in `s`.
pub open spec fn matches_at(s: Seq<char>, i: int, t: Seq<char>) -> bool {
    0 <= i && i + t.len() <= s.len() && s.subrange(i, i + t.len() as int) == t
}

/// A literal: consumed exactly when it stands at `i`.
pub open spec fn jp_lit(s: Seq<char>, i: int, t: Seq<char>) -> Option<int> {
    if matches_at(s, i, t) {
        Option::Some(i + t.len() as int)
    } else {
        Option::None
    }
}

/// `null` or a JSON string, told apart by the first character.
pub open spec fn jp_opt_string(s: Seq<char>, i: int) -> Option<(Option<Seq<char>>, int)> {
    if 0 <= i && i < s.len() && s[i] == '"' {
        match jp_string(s, i) {
            Option::Some((t, j)) => Option::Some((Option::Some(t), j)),
            Option::None => Option::None,
        }
    } else {
        match jp_lit(s, i, "null"@) {
            Option::Some(j) => Option::Some((Option::None, j)),
            Option::None => Option::None,
        }
    }
}

/// `null` or a canonical `u16`, told apart by the first character.
pub open spec fn jp_opt_u16(s: Seq<char>, i: int) -> Option<(Option<u16>, int)> {
    if 0 <= i && i < s.len() && is_digit(s[i]) {
        match jp_u16(s, i) {
            Option::Some((n, j)) => Option::Some((Option::Some(n), j)),
            Option::None => Option::None,
        }
    } else {
        match jp_lit(s, i, "null"@) {
            Option::Some(j) => Option::Some((Option::None, j)),
            Option::None => Option::None,
        }
    }
}

// --- bounds of the spec parsers ---

pub proof fn lemma_jp_str_rest_bounds(s: Seq<char>, i: int)
    requires
        0 <= i <= s.len(),
    ensures
        jp_str_rest(s, i) matches Option::Some((t, j)) ==> i < j <= s.len(),
    decreases s.len() - i,
{
    if i < s.len() {
        if s[i] == '\\' {
            if i + 1 < s.len() && (s[i + 1] == '"' || s[i + 1] == '\\') {
                lemma_jp_str_rest_bounds(s, i + 2);
            }
        } else if s[i] != '"' && (s[i] as u32) >= 0x20 {
            lemma_jp_str_rest_bounds(s, i + 1);
        }
    }
}

pub proof fn lemma_digits_end_bounds(s: Seq<char>, i: int)
    requires
        0 <= i <= s.len(),
    ensures
        i <= digits_end(s, i) <= s.len(),
        forall|k: int| i <= k < digits_end(s, i) ==> is_digit(s[k]),
        digits_end(s, i) < s.len() ==> !is_digit(s[digits_end(s, i)]),
    decreases s.len() - i,
{
    if i < s.len() && is_digit(s[i]) {
        lemma_digits_end_bounds(s, i + 1);
    }
}

// --- serializer facts ---

/// Escaping distributes over concatenation.
pub proof fn lemma_esc_concat(a: Seq<char>, b: Seq<char>)
    ensures
        jser_esc(a + b) == jser_esc(a) + jser_esc(b),
    decreases a.len(),
{
    if a.len() == 0 {
        assert(a + b =~= b);
        assert(jser_esc(a) + jser_esc(b) =~= jser_esc(b));
    } else {
        assert((a + b).drop_first() =~= a.drop_first() + b);
        lemma_esc_concat(a.drop_first(), b);
        assert(jser_esc(a + b) =~= jser_esc(a) + jser_esc(b));
    }
}

/// The digits of a number are digits, there is at least one, the first is not
/// a superfluous zero, and a `u16` needs at most five.
pub proof fn lemma_dec_shape(n: nat)
    ensures
        jser_dec(n).len() >= 1,
        forall|k: int| 0 <= k < jser_dec(n).len() ==> is_digit(#[trigger] jser_dec(n)[k]),
        jser_dec(n)[0] == '0' ==> n == 0,
        n == 0 ==> jser_dec(n) =~= seq!['0'],
        n < 10 ==> jser_dec(n).len() == 1,
        n <= 65535 ==> jser_dec(n).len() <= 5,
    decreases n,
{
    if n < 10 {
        assert(is_digit(spec_digit(n as int)));
        assert(n > 0 ==> spec_digit(n as int) != '0');
    } else {
        lemma_dec_shape(n / 10);
        assert(jser_dec(n)[0] == jser_dec(n / 10)[0]);
        assert(is_digit(spec_digit((n % 10) as int)));
        if n <= 65535 {
            assert(n / 10 <= 6553);
            if n / 10 >= 10 {
                lemma_dec_shape(n / 10 / 10);
                if n / 100 >= 10 {
                    lemma_dec_shape(n / 100 / 10);
                    if n / 1000 >= 10 {
                        lemma_dec_shape(n / 1000 / 10);
                        assert(n / 10000 < 10);
                    }
                }
            }
        }
    }
}

/// The digits of `n` evaluate back to `n`.
pub proof fn lemma_dec_val(n: nat, s: Seq<char>, i: int)
    requires
        matches_at(s, i, jser_dec(n)),
    ensures
        digits_val(s, i, i + jser_dec(n).len()) == n,
    decreases n,
{
    lemma_dec_shape(n);
    let d = jser_dec(n);
    let j = i + d.len();
    if n < 10 {
        assert(s[i] == d[0]);
        assert(digits_val(s, i, i) == 0);
        assert(digits_val(s, i, i + 1) == digit_val(s[i]));
        assert(digit_val(spec_digit(n as int)) == n as int);
    } else {
        let dh = jser_dec(n / 10);
        assert(d == dh + seq![spec_digit((n % 10) as int)]);
        assert(matches_at(s, i, dh)) by {
            assert forall|k: int| 0 <= k < dh.len() implies s.subrange(i, i + dh.len() as int)[k]
                == dh[k] by {
                assert(s.subrange(i, j)[k] == d[k]);
                assert(d[k] == dh[k]);
            }
            assert(s.subrange(i, i + dh.len() as int) =~= dh);
        }
        lemma_dec_val(n / 10, s, i);
        assert(s[j - 1] == d[d.len() - 1]);
        assert(d[d.len() - 1] == spec_digit((n % 10) as int));
        assert(digit_val(spec_digit((n % 10) as int)) == (n % 10) as int);
        assert(digits_val(s, i, j) == digits_val(s, i, j - 1) * 10 + digit_val(s[j - 1]));
    }
}

/// Splitting a literal match into two halves.
pub proof fn lemma_matches_split(s: Seq<char>, i: int, a: Seq<char>, b: Seq<char>)
    requires
        matches_at(s, i, a + b),
    ensures
        matches_at(s, i, a),
        matches_at(s, i + a.len(), b),
{
    let t = a + b;
    assert forall|k: int| 0 <= k < a.len() implies s.subrange(i, i + a.len() as int)[k]
        == a[k] by {
        assert(s.subrange(i, i + t.len() as int)[k] == t[k]);
    }
    assert(s.subrange(i, i + a.len() as int) =~= a);
    assert forall|k: int| 0 <= k < b.len() implies s.subrange(
        i + a.len(),
        i + a.len() + b.len() as int,
    )[k] == b[k] by {
        assert(s.subrange(i, i + t.len() as int)[a.len() + k] == t[a.len() + k]);
        assert(t[a.len() + k] == b[k]);
    }
    assert(s.subrange(i + a.len(), i + a.len() + b.len() as int) =~= b);
}

/// Every character of a matched literal stands in `s`.
pub proof fn lemma_matches_index(s: Seq<char>, i: int, t: Seq<char>)
    requires
        matches_at(s, i, t),
    ensures
        forall|k: int| 0 <= k < t.len() ==> s[i + k] == t[k],
{
    assert forall|k: int| 0 <= k < t.len() implies s[i + k] == t[k] by {
        assert(s.subrange(i, i + t.len() as int)[k] == t[k]);
    }
}

// --- round trips of the primitives ---

/// Parsing the serialized content of a string yields the string back.
pub proof fn lemma_rt_str_rest(v: Seq<char>, s: Seq<char>, i: int)
    requires
        str_ok(v),
        matches_at(s, i, jser_esc(v) + seq!['"']),
    ensures
        jp_str_rest(s, i) == Option::Some((v, i + jser_esc(v).len() + 1)),
    decreases v.len(),
{
    lemma_matches_index(s, i, jser_esc(v) + seq!['"']);
    if v.len() == 0 {
        assert(s[i + 0] == (jser_esc(v) + seq!['"'])[0]);
        assert((jser_esc(v) + seq!['"'])[0] == '"');
        assert(s[i] == '"');
    } else {
        let c = v[0];
        let t = v.drop_first();
        assert(v =~= seq![c] + t);
        lemma_esc_concat(seq![c], t);
        assert(jser_esc(v) == jser_esc(seq![c]) + jser_esc(t));
        assert(jser_esc(seq![c]).len() <= 2);
        let head = jser_esc(seq![c]);
        assert(seq![c].drop_first() =~= Seq::<char>::empty());
        assert(jser_esc(Seq::<char>::empty()) =~= Seq::<char>::empty());
        if c == '"' {
            assert(head =~= seq!['\\', '"']);
        } else if c == '\\' {
            assert(head =~= seq!['\\', '\\']);
        } else {
            assert(head =~= seq![c]);
        }
        assert((jser_esc(seq![c]) + jser_esc(t)) + seq!['"']
            =~= jser_esc(seq![c]) + (jser_esc(t) + seq!['"']));
        lemma_matches_split(s, i, head, jser_esc(t) + seq!['"']);
        lemma_rt_str_rest(t, s, i + head.len());
        assert(str_ok(t)) by {
            assert(forall|k: int| 0 <= k < t.len() ==> t[k] == v[k + 1]);
        }
        assert((v[0] as u32) >= 0x20);
        if c == '"' {
            assert(s[i] == '\\' && s[i + 1] == '"');
            assert(jp_str_rest(s, i) == Option::Some((seq![c] + t, i + jser_esc(v).len() + 1)));
        } else if c == '\\' {
            assert(s[i] == '\\' && s[i + 1] == '\\');
            assert(jp_str_rest(s, i) == Option::Some((seq![c] + t, i + jser_esc(v).len() + 1)));
        } else {
            assert(s[i] == c);
            assert(s[i] != '"' && s[i] != '\\');
            assert(jp_str_rest(s, i) == Option::Some((seq![c] + t, i + jser_esc(v).len() + 1)));
        }
        assert(seq![c] + t =~= v);
    }
}

/// Parsing a serialized string yields the string back.
pub proof fn lemma_rt_string(v: Seq<char>, s: Seq<char>, i: int)
    requires
        str_ok(v),
        matches_at(s, i, jser_string(v)),
    ensures
        jp_string(s, i) == Option::Some((v, i + jser_string(v).len())),
{
    assert(jser_string(v) =~= seq!['"'] + (jser_esc(v) + seq!['"']));
    lemma_matches_split(s, i, seq!['"'], jser_esc(v) + seq!['"']);
    lemma_matches_index(s, i, jser_string(v));
    assert(s[i + 0] == jser_string(v)[0]);
    assert(jser_string(v)[0] == '"');
    assert(s[i] == '"');
    lemma_rt_str_rest(v, s, i + 1);
}

/// Parsing serialized digits yields the number back, provided no digit
/// follows them in `s`.
pub proof fn lemma_rt_u16(n: u16, s: Seq<char>, i: int)
    requires
        matches_at(s, i, jser_dec(n as nat)),
        i + jser_dec(n as nat).len() == s.len()
            || !is_digit(s[i + jser_dec(n as nat).len()]),
    ensures
        jp_u16(s, i) == Option::Some((n, i + jser_dec(n as nat).len())),
{
    let d = jser_dec(n as nat);
    let j = i + d.len();
    lemma_dec_shape(n as nat);
    lemma_matches_index(s, i, d);
    assert forall|k: int| i <= k < j implies is_digit(s[k]) by {
        assert(s[k] == d[k - i]);
    }
    lemma_digits_end_run(s, i, j);
    lemma_dec_val(n as nat, s, i);
    if d[0] == '0' {
        assert(n == 0);
        assert(d.len() == 1);
    }
}

/// The digit run starting at `i` ends exactly at `j` when `s[i..j]` are
/// digits and `s[j]` is not.
pub proof fn lemma_digits_end_run(s: Seq<char>, i: int, j: int)
    requires
        0 <= i <= j <= s.len(),
        forall|k: int| i <= k < j ==> is_digit(s[k]),
        j == s.len() || !is_digit(s[j]),
    ensures
        digits_end(s, i) == j,
    decreases j - i,
{
    if i < j {
        lemma_digits_end_run(s, i + 1, j);
    }
}

/// Parsing a serialized optional string yields it back.
pub proof fn lemma_rt_opt_string(v: Option<Seq<char>>, s: Seq<char>, i: int)
    requires
        opt_str_ok(v),
        matches_at(s, i, jser_opt_string(v)),
    ensures
        jp_opt_string(s, i) == Option::Some((v, i + jser_opt_string(v).len())),
{
    match v {
        Option::Some(t) => {
            lemma_rt_string(t, s, i);
            lemma_matches_index(s, i, jser_string(t));
            assert(s[i + 0] == jser_string(t)[0]);
            assert(jser_string(t)[0] == '"');
            assert(s[i] == '"');
        },
        Option::None => {
            lemma_matches_index(s, i, "null"@);
            proof_null_shape();
            assert(s[i + 0] == "null"@[0]);
            assert(s[i] == 'n');
            assert(s[i] != '"');
            assert(jp_lit(s, i, "null"@) == Option::Some(i + 4));
        },
    }
}

/// The text `null` is four characters and starts with `n`.
pub proof fn proof_null_shape()
    ensures
        "null"@.len() == 4,
        "null"@[0] == 'n',
        !is_digit("null"@[0]),
        "null"@[0] != '"',
{
    reveal_strlit("null");
}

/// Parsing a serialized optional number yields it back.
pub proof fn lemma_rt_opt_u16(v: Option<u16>, s: Seq<char>, i: int)
    requires
        matches_at(s, i, jser_opt_u16(v)),
        i + jser_opt_u16(v).len() == s.len() || !is_digit(s[i + jser_opt_u16(v).len()]),
    ensures
        jp_opt_u16(s, i) == Option::Some((v, i + jser_opt_u16(v).len())),
{
    match v {
        Option::Some(n) => {
            lemma_rt_u16(n, s, i);
            lemma_dec_shape(n as nat);
            lemma_matches_index(s, i, jser_dec(n as nat));
            assert(s[i + 0] == jser_dec(n as nat)[0]);
            assert(is_digit(s[i]));
        },
        Option::None => {
            lemma_matches_index(s, i, "null"@);
            proof_null_shape();
            assert(s[i + 0] == "null"@[0]);
            assert(s[i] == 'n');
            assert(!is_digit(s[i]));
            assert(jp_lit(s, i, "null"@) == Option::Some(i + 4));
        },
    }
}

// --- executable serializers ---

/// Escaping one character.
pub proof fn lemma_esc_single(c: char)
    ensures
        c == '"' ==> jser_esc(seq![c]) == seq!['\\', '"'],
        c == '\\' ==> jser_esc(seq![c]) == seq!['\\', '\\'],
        (c != '"' && c != '\\') ==> jser_esc(seq![c]) == seq![c],
{
    let s = seq![c];
    assert(s.drop_first() =~= Seq::<char>::empty());
    assert(jser_esc(Seq::<char>::empty()) =~= Seq::<char>::empty());
    assert(jser_esc(s.drop_first()) =~= Seq::<char>::empty());
    if c == '"' {
        assert(jser_esc(s) =~= seq!['\\', '"']);
    } else if c == '\\' {
        assert(jser_esc(s) =~= seq!['\\', '\\']);
    } else {
        assert(jser_esc(s) =~= seq![c]);
    }
}

/// Appends the canonical JSON string for `s` to `out`.
pub fn append_json_string(out: &mut String, s: &String)
    ensures
        final(out)@ == old(out)@ + jser_string(s@),
{
    let ghost base = out@;
    out.append("\"");
    proof {
        reveal_strlit("\"");
        assert("\""@ =~= seq!['"']);
    }
    let n = s.as_str().unicode_len();
    let mut i: usize = 0;
    while i < n
        invariant
            i <= n,
            n == s@.len(),
            out@ == base + seq!['"'] + jser_esc(s@.take(i as int)),
        decreases n - i,
    {
        let c = s.as_str().get_char(i);
        proof {
            assert(s@.take(i as int + 1) =~= s@.take(i as int) + seq![s@[i as int]]);
            lemma_esc_concat(s@.take(i as int), seq![s@[i as int]]);
            lemma_esc_single(s@[i as int]);
            reveal_strlit("\\\"");
            reveal_strlit("\\\\");
            assert("\\\""@ =~= seq!['\\', '"']);
            assert("\\\\"@ =~= seq!['\\', '\\']);
        }
        if c == '"' {
            out.append("\\\"");
            proof {
                assert(jser_esc(seq![s@[i as int]]) =~= seq!['\\', '"']);
                assert(out@ =~= base + seq!['"'] + jser_esc(s@.take(i as int + 1)));
            }
        } else if c == '\\' {
            out.append("\\\\");
            proof {
                assert(jser_esc(seq![s@[i as int]]) =~= seq!['\\', '\\']);
                assert(out@ =~= base + seq!['"'] + jser_esc(s@.take(i as int + 1)));
            }
        } else {
            let piece = s.as_str().substring_char(i, i + 1);
            proof {
                assert(piece@ =~= seq![s@[i as int]]);
            }
            out.append(piece);
            proof {
                assert(jser_esc(seq![s@[i as int]]) =~= seq![s@[i as int]]);
                assert(out@ =~= base + seq!['"'] + jser_esc(s@.take(i as int + 1)));
            }
        }
        i = i + 1;
    }
    proof {
        assert(s@.take(n as int) =~= s@);
    }
    out.append("\"");
    proof {
        reveal_strlit("\"");
        assert("\""@ =~= seq!['"']);
        assert(out@ =~= base + jser_string(s@));
    }
}

/// Appends one decimal digit.
fn append_digit(out: &mut String, d: u64)
    requires
        d < 10,
    ensures
        final(out)@ == old(out)@ + seq![spec_digit(d as int)],
{
    if d == 0 { out.append("0"); proof { reveal_strlit("0"); assert("0"@ =~= seq!['0']); } }
    else if d == 1 { out.append("1"); proof { reveal_strlit("1"); assert("1"@ =~= seq!['1']); } }
    else if d == 2 { out.append("2"); proof { reveal_strlit("2"); assert("2"@ =~= seq!['2']); } }
    else if d == 3 { out.append("3"); proof { reveal_strlit("3"); assert("3"@ =~= seq!['3']); } }
    else if d == 4 { out.append("4"); proof { reveal_strlit("4"); assert("4"@ =~= seq!['4']); } }
    else if d == 5 { out.append("5"); proof { reveal_strlit("5"); assert("5"@ =~= seq!['5']); } }
    else if d == 6 { out.append("6"); proof { reveal_strlit("6"); assert("6"@ =~= seq!['6']); } }
    else if d == 7 { out.append("7"); proof { reveal_strlit("7"); assert("7"@ =~= seq!['7']); } }
    else if d == 8 { out.append("8"); proof { reveal_strlit("8"); assert("8"@ =~= seq!['8']); } }
    else { out.append("9"); proof { reveal_strlit("9"); assert("9"@ =~= seq!['9']); } }
}

/// Appends the decimal digits of `n` to `out`.
pub fn append_dec(out: &mut String, n: u64)
    ensures
        final(out)@ == old(out)@ + jser_dec(n as nat),
    decreases n,
{
    if n >= 10 {
        append_dec(out, n / 10);
        append_digit(out, n % 10);
        proof {
            assert(out@ =~= old(out)@ + jser_dec(n as nat));
        }
    } else {
        append_digit(out, n);
    }
}

/// Appends `null` or a JSON string.
pub fn append_opt_string(out: &mut String, o: &Option<String>)
    ensures
        final(out)@ == old(out)@ + jser_opt_string(crate::model::view_opt_string(*o)),
{
    match o {
        Option::Some(s) => append_json_string(out, s),
        Option::None => out.append("null"),
    }
}

/// Appends `null` or decimal digits.
pub fn append_opt_u16(out: &mut String, o: &Option<u16>)
    ensures
        final(out)@ == old(out)@ + jser_opt_u16(*o),
{
    match o {
        Option::Some(p) => append_dec(out, *p as u64),
        Option::None => out.append("null"),
    }
}

// --- executable parsers ---

/// Equality of two string slices, exact over the views.
pub fn str_eqs(a: &str, b: &str) -> (r: bool)
    ensures
        r == (a@ == b@),
{
    let na = a.unicode_len();
    let nb = b.unicode_len();
    if na != nb {
        proof {
            assert(a@ != b@) by {
                if a@ == b@ {
                    assert(a@.len() == b@.len());
                }
            }
        }
        return false;
    }
    let mut i: usize = 0;
    while i < na
        invariant
            i <= na,
            na == a@.len(),
            na == b@.len(),
            forall|k: int| 0 <= k < i as int ==> a@[k] == b@[k],
        decreases na - i,
    {
        if a.get_char(i) != b.get_char(i) {
            proof {
                assert(a@ != b@) by {
                    if a@ == b@ {
                        assert(a@[i as int] == b@[i as int]);
                    }
                }
            }
            return false;
        }
        i = i + 1;
    }
    proof {
        assert(a@ =~= b@);
    }
    true
}

/// Consumes the literal `lit` at `i`, if it stands there.
pub fn eat_lit(s: &str, n: usize, i: usize, lit: &str) -> (r: Option<usize>)
    requires
        n == s@.len(),
        i <= n,
    ensures
        match r {
            Option::Some(j) => jp_lit(s@, i as int, lit@) == Option::Some(j as int) && i <= j <= n,
            Option::None => jp_lit(s@, i as int, lit@) is None,
        },
{
    let ln = lit.unicode_len();
    if ln > n - i {
        return Option::None;
    }
    let mut k: usize = 0;
    while k < ln
        invariant
            k <= ln,
            ln <= n - i,
            i <= n,
            n == s@.len(),
            ln == lit@.len(),
            forall|m: int| 0 <= m < k as int ==> s@[i + m] == lit@[m],
        decreases ln - k,
    {
        if s.get_char(i + k) != lit.get_char(k) {
            proof {
                assert(!matches_at(s@, i as int, lit@)) by {
                    if matches_at(s@, i as int, lit@) {
                        lemma_matches_index(s@, i as int, lit@);
                        assert(s@[i as int + k as int] == lit@[k as int]);
                    }
                }
            }
            return Option::None;
        }
        k = k + 1;
    }
    proof {
        assert(s@.subrange(i as int, i + lit@.len() as int) =~= lit@);
    }
    Option::Some(i + ln)
}

/// Parses a JSON string at `i`, exactly as [`jp_string`] reads it.
pub fn p_string(s: &str, n: usize, i: usize) -> (r: Option<(String, usize)>)
    requires
        n == s@.len(),
        i <= n,
    ensures
        match r {
            Option::Some(v) => jp_string(s@, i as int) == Option::Some((v.0@, v.1 as int))
                && i < v.1 <= n,
            Option::None => jp_string(s@, i as int) is None,
        },
{
    broadcast use vstd::seq_lib::group_seq_properties;

    if i >= n {
        return Option::None;
    }
    if s.get_char(i) != '"' {
        return Option::None;
    }
    let mut out = String::new();
    let mut k: usize = i + 1;
    proof {
        assert(jp_string(s@, i as int) == jp_str_rest(s@, i as int + 1));
    }
    while k < n
        invariant
            i < k <= n,
            n == s@.len(),
            jp_string(s@, i as int) == (match jp_str_rest(s@, k as int) {
                Option::Some((t, j)) => Option::Some((out@ + t, j)),
                Option::None => Option::<(Seq<char>, int)>::None,
            }),
        decreases n - k,
    {
        let c = s.get_char(k);
        if c == '"' {
            proof {
                lemma_jp_str_rest_bounds(s@, k as int);
                assert(out@ + Seq::<char>::empty() =~= out@);
            }
            return Option::Some((out, k + 1));
        } else if c == '\\' {
            if k + 1 < n {
                let e = s.get_char(k + 1);
                if e == '"' || e == '\\' {
                    let piece = s.substring_char(k + 1, k + 2);
                    proof {
                        assert(piece@ =~= seq![s@[k as int + 1]]);
                        let r2 = jp_str_rest(s@, k as int + 2);
                        if r2 is Some {
                            let t = r2->Some_0.0;
                            assert(out@ + (seq![s@[k as int + 1]] + t) =~= (out@ + piece@) + t);
                        }
                    }
                    out.append(piece);
                    k = k + 2;
                } else {
                    return Option::None;
                }
            } else {
                return Option::None;
            }
        } else if (c as u32) >= 0x20 {
            let piece = s.substring_char(k, k + 1);
            proof {
                assert(piece@ =~= seq![s@[k as int]]);
                let r2 = jp_str_rest(s@, k as int + 1);
                if r2 is Some {
                    let t = r2->Some_0.0;
                    assert(out@ + (seq![s@[k as int]] + t) =~= (out@ + piece@) + t);
                }
            }
            out.append(piece);
            k = k + 1;
        } else {
            return Option::None;
        }
    }
    Option::None
}

fn is_digit_exec(c: char) -> (r: bool)
    ensures
        r == is_digit(c),
{
    let v = c as u32;
    48 <= v && v <= 57
}

fn digit_at(s: &str, n: usize, j: usize) -> (r: bool)
    requires
        n == s@.len(),
        j < n,
    ensures
        r == is_digit(s@[j as int]),
{
    is_digit_exec(s.get_char(j))
}

/// Parses a canonical `u16` at `i`, exactly as [`jp_u16`] reads it.
pub fn p_u16(s: &str, n: usize, i: usize) -> (r: Option<(u16, usize)>)
    requires
        n == s@.len(),
        i <= n,
    ensures
        match r {
            Option::Some(v) => jp_u16(s@, i as int) == Option::Some((v.0, v.1 as int))
                && i < v.1 <= n,
            Option::None => jp_u16(s@, i as int) is None,
        },
{
    let mut j: usize = i;
    while j < n && digit_at(s, n, j)
        invariant
            i <= j <= n,
            n == s@.len(),
            digits_end(s@, i as int) == digits_end(s@, j as int),
            forall|m: int| i <= m < j as int ==> is_digit(s@[m]),
        decreases n - j,
    {
        j = j + 1;
    }
    proof {
        assert(digits_end(s@, j as int) == j as int);
    }
    if j == i {
        return Option::None;
    }
    if j - i > 5 {
        return Option::None;
    }
    if s.get_char(i) == '0' && j - i > 1 {
        return Option::None;
    }
    let mut acc: u64 = 0;
    let mut k: usize = i;
    proof {
        lemma_digits_val_bound(s@, i as int, j as int);
    }
    while k < j
        invariant
            i <= k <= j <= n,
            n == s@.len(),
            j as int - i as int <= 5,
            forall|m: int| i <= m < j as int ==> is_digit(s@[m]),
            acc as int == digits_val(s@, i as int, k as int),
            acc <= 99999,
        decreases j - k,
    {
        proof {
            lemma_digits_val_bound(s@, i as int, k as int + 1);
            lemma_pow10_small();
        }
        let d = (s.get_char(k) as u32) - 48;
        acc = acc * 10 + (d as u64);
        k = k + 1;
    }
    if acc > 65535 {
        return Option::None;
    }
    Option::Some((acc as u16, j))
}

/// Parses `null` or a JSON string.
pub fn p_opt_string(s: &str, n: usize, i: usize) -> (r: Option<(Option<String>, usize)>)
    requires
        n == s@.len(),
        i <= n,
    ensures
        match r {
            Option::Some(v) => jp_opt_string(s@, i as int)
                == Option::Some((crate::model::view_opt_string(v.0), v.1 as int)) && i < v.1 <= n,
            Option::None => jp_opt_string(s@, i as int) is None,
        },
{
    if i < n && s.get_char(i) == '"' {
        match p_string(s, n, i) {
            Option::Some((t, j)) => Option::Some((Option::Some(t), j)),
            Option::None => Option::None,
        }
    } else {
        match eat_lit(s, n, i, "null") {
            Option::Some(j) => {
                proof {
                    proof_null_shape();
                }
                Option::Some((Option::None, j))
            },
            Option::None => Option::None,
        }
    }
}

/// Parses `null` or a canonical `u16`.
pub fn p_opt_u16(s: &str, n: usize, i: usize) -> (r: Option<(Option<u16>, usize)>)
    requires
        n == s@.len(),
        i <= n,
    ensures
        match r {
            Option::Some(v) => jp_opt_u16(s@, i as int) == Option::Some((v.0, v.1 as int))
                && i < v.1 <= n,
            Option::None => jp_opt_u16(s@, i as int) is None,
        },
{
    let first_digit = if i < n { is_digit_exec(s.get_char(i)) } else { false };
    if first_digit {
        match p_u16(s, n, i) {
            Option::Some((v, j)) => Option::Some((Option::Some(v), j)),
            Option::None => Option::None,
        }
    } else {
        match eat_lit(s, n, i, "null") {
            Option::Some(j) => {
                proof {
                    proof_null_shape();
                }
                Option::Some((Option::None, j))
            },
            Option::None => Option::None,
        }
    }
}

pub open spec fn pow10(k: int) -> int
    decreases k when k >= 0
{
    if k <= 0 {
        1
    } else {
        10 * pow10(k - 1)
    }
}

pub proof fn lemma_pow10_small()
    ensures
        pow10(0) == 1,
        pow10(1) == 10,
        pow10(2) == 100,
        pow10(3) == 1000,
        pow10(4) == 10000,
        pow10(5) == 100000,
{
}

/// The value of a digit run is bounded by a power of ten.
pub proof fn lemma_digits_val_bound(s: Seq<char>, i: int, j: int)
    requires
        0 <= i <= j <= s.len(),
        forall|m: int| i <= m < j ==> is_digit(s[m]),
    ensures
        0 <= digits_val(s, i, j) < pow10(j - i),
    decreases j - i,
{
    if i < j {
        lemma_digits_val_bound(s, i, j - 1);
        assert(digit_val(s[j - 1]) <= 9);
        assert(digits_val(s, i, j - 1) <= pow10(j - 1 - i) - 1);
        assert(digits_val(s, i, j - 1) * 10 <= (pow10(j - 1 - i) - 1) * 10) by (nonlinear_arith)
            requires digits_val(s, i, j - 1) <= pow10(j - 1 - i) - 1;
    }
}


} // verus!
