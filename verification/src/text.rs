use vstd::prelude::*;
use vstd::string::*;

verus! {

/// Whether two strings hold the same characters.
pub fn str_eq(a: &str, b: &str) -> (r: bool)
    ensures
        r == (a@ == b@),
{
    let n = a.unicode_len();
    let m = b.unicode_len();
    if n != m {
        return false;
    }
    let mut i: usize = 0;
    while i < n
        invariant
            n == a@.len(),
            m == b@.len(),
            n == m,
            i <= n,
            forall|j: int| 0 <= j < i ==> a@[j] == b@[j],
        decreases n - i,
    {
        if a.get_char(i) != b.get_char(i) {
            return false;
        }
        i = i + 1;
    }
    assert(a@ =~= b@);
    true
}

/// The text of one decimal digit.
pub open spec fn digit_text(d: nat) -> Seq<char> {
    if d == 0 {
        "0"@
    } else if d == 1 {
        "1"@
    } else if d == 2 {
        "2"@
    } else if d == 3 {
        "3"@
    } else if d == 4 {
        "4"@
    } else if d == 5 {
        "5"@
    } else if d == 6 {
        "6"@
    } else if d == 7 {
        "7"@
    } else if d == 8 {
        "8"@
    } else {
        "9"@
    }
}

/// The decimal notation of a natural number, without leading zeros.
pub open spec fn decimal(n: nat) -> Seq<char>
    decreases n,
{
    if n < 10 {
        digit_text(n)
    } else {
        decimal(n / 10) + digit_text(n % 10)
    }
}

/// The decimal notation of a signed number.
pub open spec fn signed_decimal(n: int) -> Seq<char> {
    if n < 0 {
        "-"@ + decimal((-n) as nat)
    } else {
        decimal(n as nat)
    }
}

fn digit_str(d: u64) -> (r: &'static str)
    requires
        d < 10,
    ensures
        r@ == digit_text(d as nat),
{
    if d == 0 {
        "0"
    } else if d == 1 {
        "1"
    } else if d == 2 {
        "2"
    } else if d == 3 {
        "3"
    } else if d == 4 {
        "4"
    } else if d == 5 {
        "5"
    } else if d == 6 {
        "6"
    } else if d == 7 {
        "7"
    } else if d == 8 {
        "8"
    } else {
        "9"
    }
}

/// Appends the decimal notation of `n`.
pub fn push_decimal(s: &mut String, n: u64)
    ensures
        final(s)@ == old(s)@ + decimal(n as nat),
    decreases n,
{
    if n < 10 {
        s.append(digit_str(n));
    } else {
        push_decimal(s, n / 10);
        s.append(digit_str(n % 10));
        assert(decimal(n as nat) == decimal((n / 10) as nat) + digit_text((n % 10) as nat));
    }
}

/// Appends the decimal notation of a signed number.
pub fn push_signed_decimal(s: &mut String, n: i64)
    ensures
        final(s)@ == old(s)@ + signed_decimal(n as int),
{
    if n < 0 {
        s.append("-");
        let magnitude: u64 = if n == i64::MIN {
            9223372036854775808u64
        } else {
            (-n) as u64
        };
        push_decimal(s, magnitude);
    } else {
        push_decimal(s, n as u64);
    }
}

/// The decimal notation of `n` as a new string.
pub fn decimal_string(n: u64) -> (r: String)
    ensures
        r@ == decimal(n as nat),
{
    let mut s = String::new();
    push_decimal(&mut s, n);
    s
}

/// A new string holding the given text.
pub fn string_of(t: &str) -> (r: String)
    ensures
        r@ == t@,
{
    String::from_str(t)
}

/// The position of the last `", "` in `s`, if any.
pub open spec fn last_comma_space(s: Seq<char>) -> Option<int>
    decreases s.len(),
{
    if s.len() < 2 {
        None
    } else if s[s.len() - 2] == ',' && s[s.len() - 1] == ' ' {
        Some(s.len() - 2)
    } else {
        last_comma_space(s.drop_last())
    }
}

/// `s` with its last `", "` replaced by `" and "`; unchanged when it holds
/// no `", "`.
pub open spec fn andified(s: Seq<char>) -> Seq<char> {
    match last_comma_space(s) {
        Some(i) => s.subrange(0, i) + " and "@ + s.subrange(i + 2, s.len() as int),
        None => s,
    }
}

proof fn lemma_last_comma_space_prefix(s: Seq<char>, k: int)
    requires
        0 <= k <= s.len(),
        forall|j: int| k - 1 <= j < s.len() - 1 && 0 <= j ==> !(#[trigger] s[j] == ',' && s[j + 1] == ' '),
    ensures
        last_comma_space(s) == last_comma_space(s.subrange(0, k)),
    decreases s.len() - k,
{
    if k < s.len() {
        assert(s.drop_last().subrange(0, k) =~= s.subrange(0, k));
        if s.len() >= 2 {
            assert(!(s[s.len() - 2] == ',' && s[s.len() - 1] == ' '));
        }
        lemma_last_comma_space_prefix(s.drop_last(), k);
    } else {
        assert(s.subrange(0, k) =~= s);
    }
}

/// Replaces the last `", "` of a list of phrases by `" and "`, in place.
pub fn andify_comma_string(s: &mut String)
    ensures
        final(s)@ == andified(old(s)@),
{
    match find_last_comma_space(s.as_str()) {
        Some(j) => {
            let n = s.as_str().unicode_len();
            let st = s.as_str();
            let prefix = st.substring_char(0, j);
            let suffix = st.substring_char(j + 2, n);
            let mut out = String::from_str(prefix);
            out.append(" and ");
            out.append(suffix);
            *s = out;
        },
        None => {},
    }
}

/// Finds the position of the last `", "`.
fn find_last_comma_space(st: &str) -> (r: Option<usize>)
    ensures
        match r {
            Some(j) => last_comma_space(st@) == Some(j as int) && j + 2 <= st@.len(),
            None => last_comma_space(st@) is None,
        },
{
    let ghost old_s = st@;
    let n = st.unicode_len();
    if n < 2 {
        return None;
    }
    let mut i: usize = n - 1;
    while i > 0
        invariant
            n == old_s.len(),
            st@ == old_s,
            1 <= n,
            i <= n - 1,
            forall|j: int| i <= j < n - 1 ==> !(#[trigger] old_s[j] == ',' && old_s[j + 1] == ' '),
        decreases i,
    {
        let j = i - 1;
        if st.get_char(j) == ',' && st.get_char(j + 1) == ' ' {
            proof {
                lemma_last_comma_space_prefix(old_s, j + 2);
                let pre = old_s.subrange(0, j + 2);
                assert(pre[pre.len() - 2] == old_s[j as int]);
                assert(pre[pre.len() - 1] == old_s[j + 1]);
            }
            return Some(j);
        }
        i = j;
    }
    proof {
        lemma_last_comma_space_prefix(old_s, 1);
    }
    None
}

/// The phrases of `items` joined with `", "`.
pub open spec fn comma_joined(items: Seq<Seq<char>>) -> Seq<char>
    decreases items.len(),
{
    if items.len() == 0 {
        Seq::empty()
    } else if items.len() == 1 {
        items[0]
    } else {
        comma_joined(items.drop_last()) + ", "@ + items.last()
    }
}

/// Joins static phrases with `", "`.
pub fn join_comma(items: &Vec<&'static str>) -> (r: String)
    ensures
        r@ == comma_joined(items@.map_values(|t: &'static str| t@)),
{
    let ghost texts = items@.map_values(|t: &'static str| t@);
    let mut r = String::new();
    let n = items.len();
    let mut i: usize = 0;
    while i < n
        invariant
            n == items@.len(),
            texts == items@.map_values(|t: &'static str| t@),
            i <= n,
            r@ == comma_joined(texts.take(i as int)),
        decreases n - i,
    {
        assert(texts.take(i as int + 1).drop_last() =~= texts.take(i as int));
        if i > 0 {
            r.append(", ");
        }
        r.append(items[i]);
        proof {
            if i == 0 {
                assert(r@ =~= texts.take(1)[0]);
            }
        }
        i = i + 1;
    }
    assert(texts.take(n as int) =~= texts);
    r
}

} // verus!
