//! Device strings (`type` or `type::index`), host triples and build targets.

use vstd::prelude::*;

verus! {

/// First position at or after `from` where the separator `::` starts, or
/// the length of `s` when there is none.
pub open spec fn find_sep(s: Seq<char>, from: int) -> int
    decreases s.len() - from,
{
    if from < 0 || from + 1 >= s.len() {
        s.len() as int
    } else if s[from] == ':' && s[from + 1] == ':' {
        from
    } else {
        find_sep(s, from + 1)
    }
}

/// The part of a device string before its first `::`.
pub open spec fn device_type_of(s: Seq<char>) -> Seq<char> {
    s.subrange(0, find_sep(s, 0))
}

/// The second `::`-separated segment of a device string, if there is one.
pub open spec fn index_segment(s: Seq<char>) -> Option<Seq<char>> {
    let p = find_sep(s, 0);
    if p >= s.len() {
        None
    } else {
        Some(s.subrange(p + 2, find_sep(s, p + 2)))
    }
}

pub open spec fn is_digit(c: char) -> bool {
    '0' <= c && c <= '9'
}

pub open spec fn all_digits(s: Seq<char>) -> bool {
    forall|i: int| 0 <= i < s.len() ==> is_digit(#[trigger] s[i])
}

pub open spec fn digit_value(c: char) -> nat {
    (c as int - '0' as int) as nat
}

/// Value of a string of decimal digits.
pub open spec fn decimal_value(s: Seq<char>) -> nat
    decreases s.len(),
{
    if s.len() == 0 {
        0
    } else {
        decimal_value(s.drop_last()) * 10 + digit_value(s.last())
    }
}

/// The decimal digits of `n`, without leading zeros.
pub open spec fn decimal_digits(n: nat) -> Seq<char>
    decreases n,
{
    if n < 10 {
        seq![('0' as u8 + n as u8) as char]
    } else {
        decimal_digits(n / 10).push(('0' as u8 + (n % 10) as u8) as char)
    }
}

/// A device index: a non-empty run of decimal digits whose value fits a `usize`.
pub open spec fn parse_index(seg: Seq<char>) -> Option<usize> {
    if seg.len() > 0 && all_digits(seg) && decimal_value(seg) <= usize::MAX {
        Some(decimal_value(seg) as usize)
    } else {
        None
    }
}

pub open spec fn device_id_of(s: Seq<char>) -> Option<usize> {
    match index_segment(s) {
        Some(seg) => parse_index(seg),
        None => None,
    }
}

fn find_separator(s: &str, from: usize) -> (r: usize)
    requires
        from <= s@.len(),
    ensures
        r as int == find_sep(s@, from as int),
        from <= r <= s@.len(),
        r < s@.len() ==> r + 2 <= s@.len(),
{
    proof {
        lemma_find_sep_bounds(s@, from as int);
    }
    let len = s.unicode_len();
    let mut i = from;
    while len - i > 1
        invariant
            from <= i <= len,
            len == s@.len(),
            find_sep(s@, from as int) == find_sep(s@, i as int),
        decreases len - i,
    {
        if s.get_char(i) == ':' && s.get_char(i + 1) == ':' {
            return i;
        }
        i = i + 1;
    }
    len
}

pub proof fn lemma_find_sep_bounds(s: Seq<char>, from: int)
    requires
        0 <= from <= s.len(),
    ensures
        from <= find_sep(s, from) <= s.len(),
        find_sep(s, from) < s.len() ==> find_sep(s, from) + 2 <= s.len(),
        find_sep(s, from) < s.len() ==> s[find_sep(s, from)] == ':' && s[find_sep(s, from) + 1]
            == ':',
    decreases s.len() - from,
{
    if from + 1 < s.len() && !(s[from] == ':' && s[from + 1] == ':') {
        lemma_find_sep_bounds(s, from + 1);
    }
}

/// Index of a device string such as `cuda::0`; `None` when the string has no
/// index or the index is not a decimal number that fits a `usize`.
pub fn parse_device_id(device: &str) -> (r: Option<usize>)
    ensures
        r == device_id_of(device@),
{
    let len = device.unicode_len();
    let p = find_separator(device, 0);
    if p >= len {
        return None;
    }
    let end = find_separator(device, p + 2);
    if end == p + 2 {
        return None;
    }
    let mut value: usize = 0;
    let mut i = p + 2;
    let ghost seg = device@.subrange(p + 2, end as int);
    assert(index_segment(device@) == Some(seg));
    assert(device_id_of(device@) == parse_index(seg));
    while i < end
        invariant
            p + 2 <= i <= end <= len,
            len == device@.len(),
            seg == device@.subrange(p + 2, end as int),
            device_id_of(device@) == parse_index(seg),
            all_digits(seg.subrange(0, i - (p + 2))),
            value as nat == decimal_value(seg.subrange(0, i - (p + 2))),
        decreases end - i,
    {
        let c = device.get_char(i);
        let ghost pre = seg.subrange(0, i - (p + 2));
        let ghost next = seg.subrange(0, i + 1 - (p + 2));
        assert(next.drop_last() =~= pre);
        assert(next.last() == c);
        if c < '0' || c > '9' {
            assert(!all_digits(seg)) by {
                assert(seg[i - (p + 2)] == c);
                assert(!is_digit(c));
            }
            assert(parse_index(seg) is None);
            return None;
        }
        let d = (c as u32 - '0' as u32) as usize;
        if value > (usize::MAX - d) / 10 {
            proof {
                if all_digits(seg) {
                    lemma_decimal_value_monotone(seg, i + 1 - (p + 2));
                    let m = usize::MAX as int;
                    let v = value as int;
                    let dd = d as int;
                    assert(v > (m - dd) / 10);
                    assert(v * 10 + dd > m) by (nonlinear_arith)
                        requires
                            v > (m - dd) / 10,
                            0 <= dd <= 9,
                            m > 9,
                    ;
                    assert(decimal_value(next) == v * 10 + dd);
                }
                assert(parse_index(seg) is None);
            }
            return None;
        }
        value = value * 10 + d;
        i = i + 1;
    }
    assert(seg.subrange(0, end - (p + 2)) =~= seg);
    Some(value)
}

/// A decimal value only grows as digits are appended.
proof fn lemma_decimal_value_monotone(s: Seq<char>, k: int)
    requires
        0 <= k <= s.len(),
        all_digits(s),
    ensures
        decimal_value(s.subrange(0, k)) <= decimal_value(s),
    decreases s.len() - k,
{
    if k < s.len() {
        lemma_decimal_value_monotone(s, k + 1);
        let a = s.subrange(0, k + 1);
        assert(a.drop_last() =~= s.subrange(0, k));
        let x = decimal_value(s.subrange(0, k));
        assert(x * 10 + digit_value(a.last()) >= x) by (nonlinear_arith);
    } else {
        assert(s.subrange(0, k) =~= s);
    }
}

proof fn lemma_decimal_digits(n: nat)
    ensures
        decimal_digits(n).len() > 0,
        all_digits(decimal_digits(n)),
        decimal_value(decimal_digits(n)) == n,
    decreases n,
{
    if n < 10 {
        let d = decimal_digits(n);
        assert(d.drop_last() =~= Seq::<char>::empty());
        assert(digit_value(d.last()) == n);
        assert(decimal_value(Seq::<char>::empty()) == 0);
        assert(decimal_value(d) == decimal_value(d.drop_last()) * 10 + digit_value(d.last()));
    } else {
        lemma_decimal_digits(n / 10);
        let d = decimal_digits(n);
        assert(d.drop_last() =~= decimal_digits(n / 10));
        assert(digit_value(d.last()) == n % 10);
        assert((n / 10) * 10 + n % 10 == n) by (nonlinear_arith);
        assert(decimal_value(d) == decimal_value(d.drop_last()) * 10 + digit_value(d.last()));
        assert forall|i: int| 0 <= i < d.len() implies is_digit(#[trigger] d[i]) by {
            if i < d.len() - 1 {
                assert(d[i] == decimal_digits(n / 10)[i]);
            }
        }
    }
}

proof fn lemma_find_sep_none(s: Seq<char>, from: int)
    requires
        0 <= from <= s.len(),
        forall|i: int| from <= i < s.len() ==> s[i] != ':',
    ensures
        find_sep(s, from) == s.len(),
    decreases s.len() - from,
{
    if from + 1 < s.len() {
        lemma_find_sep_none(s, from + 1);
    }
}

/// A device string made of `cuda` or `rocm`, the separator `::` and the
/// decimal digits of `n` has index `n`; a device string without a separator,
/// such as `cpu`, has none.
pub proof fn lemma_device_id_round_trip(t: Seq<char>, n: usize)
    requires
        t == "cuda"@ || t == "rocm"@,
    ensures
        device_id_of(t + "::"@ + decimal_digits(n as nat)) == Some(n),
        device_id_of("cpu"@) is None,
{
    reveal_strlit("cuda");
    reveal_strlit("rocm");
    reveal_strlit("::");
    reveal_strlit("cpu");
    let d = decimal_digits(n as nat);
    lemma_decimal_digits(n as nat);
    let s = t + "::"@ + d;
    assert(s.len() == 6 + d.len());
    assert(s[4] == ':' && s[5] == ':');
    assert forall|i: int| 6 <= i < s.len() implies s[i] != ':' by {
        assert(s[i] == d[i - 6]);
        assert(is_digit(d[i - 6]));
    }
    lemma_find_sep_none(s, 6);
    assert(find_sep(s, 4) == 4);
    assert(find_sep(s, 3) == 4);
    assert(find_sep(s, 2) == 4);
    assert(find_sep(s, 1) == 4);
    assert(find_sep(s, 0) == 4);
    assert(s.subrange(6, s.len() as int) =~= d);
    let c = "cpu"@;
    assert(find_sep(c, 2) == 3);
    assert(find_sep(c, 1) == 3);
    assert(find_sep(c, 0) == 3);
}

fn digit_str(d: usize) -> (r: &'static str)
    requires
        d < 10,
    ensures
        r@ == seq![('0' as u8 + d as u8) as char],
{
    proof {
        reveal_strlit("0");
        reveal_strlit("1");
        reveal_strlit("2");
        reveal_strlit("3");
        reveal_strlit("4");
        reveal_strlit("5");
        reveal_strlit("6");
        reveal_strlit("7");
        reveal_strlit("8");
        reveal_strlit("9");
    }
    match d {
        0 => "0",
        1 => "1",
        2 => "2",
        3 => "3",
        4 => "4",
        5 => "5",
        6 => "6",
        7 => "7",
        8 => "8",
        _ => "9",
    }
}

/// Appends the decimal digits of `n`.
pub fn append_decimal(s: &mut String, n: usize)
    ensures
        final(s)@ == old(s)@ + decimal_digits(n as nat),
    decreases n,
{
    if n >= 10 {
        append_decimal(s, n / 10);
    }
    s.append(digit_str(n % 10));
    proof {
        if n >= 10 {
            assert(decimal_digits(n as nat) == decimal_digits((n / 10) as nat).push(
                ('0' as u8 + (n % 10) as u8) as char,
            ));
        }
    }
    assert(s@ =~= old(s)@ + decimal_digits(n as nat));
}

/// The device type of a device string: the text before its first `::`.
pub fn device_type(device: &str) -> (r: &str)
    ensures
        r@ == device_type_of(device@),
{
    let p = find_separator(device, 0);
    device.substring_char(0, p)
}

/// Target of an ahead-of-time build: a target triple and a device string.
#[derive(Clone, Debug, PartialEq, Eq, Hash)]
pub struct BuildTarget {
    pub triple: String,
    pub device: String,
}

impl BuildTarget {
    /// A build target for the given triple and device.
    pub fn new(triple: &str, device: &str) -> (r: BuildTarget)
        ensures
            r.triple@ == triple@,
            r.device@ == device@,
    {
        BuildTarget { triple: String::from_str(triple), device: String::from_str(device) }
    }

    /// A build target for the host described by `arch` and `os`.
    pub fn for_host(arch: &str, os: &str, device: &str) -> (r: BuildTarget)
        ensures
            r.triple@ == host_triple_of(arch@, os@),
            r.device@ == device@,
    {
        BuildTarget::new(host_triple(arch, os), device)
    }
}

/// Target triple of a host on the supported matrix of architectures and
/// operating systems, `unknown` elsewhere.
pub open spec fn host_triple_of(arch: Seq<char>, os: Seq<char>) -> Seq<char> {
    if arch == "x86_64"@ && os == "linux"@ {
        "x86_64-unknown-linux-gnu"@
    } else if arch == "aarch64"@ && os == "linux"@ {
        "aarch64-unknown-linux-gnu"@
    } else if arch == "x86_64"@ && os == "macos"@ {
        "x86_64-apple-darwin"@
    } else if arch == "aarch64"@ && os == "macos"@ {
        "aarch64-apple-darwin"@
    } else if arch == "x86_64"@ && os == "windows"@ {
        "x86_64-pc-windows-msvc"@
    } else if arch == "aarch64"@ && os == "windows"@ {
        "aarch64-pc-windows-msvc"@
    } else {
        "unknown"@
    }
}

pub fn str_eq(a: &str, b: &str) -> (r: bool)
    ensures
        r == (a@ == b@),
{
    let n = a.unicode_len();
    if n != b.unicode_len() {
        return false;
    }
    let mut i: usize = 0;
    while i < n
        invariant
            i <= n,
            n == a@.len(),
            n == b@.len(),
            a@.subrange(0, i as int) == b@.subrange(0, i as int),
        decreases n - i,
    {
        if a.get_char(i) != b.get_char(i) {
            return false;
        }
        assert(a@.subrange(0, i + 1) =~= a@.subrange(0, i as int).push(a@[i as int]));
        assert(b@.subrange(0, i + 1) =~= b@.subrange(0, i as int).push(b@[i as int]));
        i = i + 1;
    }
    assert(a@ =~= a@.subrange(0, n as int));
    assert(b@ =~= b@.subrange(0, n as int));
    true
}

/// Target triple for an architecture and operating system as Rust names them
/// (`x86_64`, `aarch64`; `linux`, `macos`, `windows`).
pub fn host_triple(arch: &str, os: &str) -> (r: &'static str)
    ensures
        r@ == host_triple_of(arch@, os@),
{
    let x86 = str_eq(arch, "x86_64");
    let arm = str_eq(arch, "aarch64");
    if x86 && str_eq(os, "linux") {
        "x86_64-unknown-linux-gnu"
    } else if arm && str_eq(os, "linux") {
        "aarch64-unknown-linux-gnu"
    } else if x86 && str_eq(os, "macos") {
        "x86_64-apple-darwin"
    } else if arm && str_eq(os, "macos") {
        "aarch64-apple-darwin"
    } else if x86 && str_eq(os, "windows") {
        "x86_64-pc-windows-msvc"
    } else if arm && str_eq(os, "windows") {
        "aarch64-pc-windows-msvc"
    } else {
        "unknown"
    }
}

} // verus!
