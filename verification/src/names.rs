//! Matching the image name of a process or module, as the system reports it
//! in a fixed-size UTF-16 buffer, against the name looked for.
use vstd::prelude::*;

verus! {

pub open spec fn is_high_surrogate(u: u16) -> bool {
    0xD800 <= u < 0xDC00
}

pub open spec fn is_low_surrogate(u: u16) -> bool {
    0xDC00 <= u < 0xE000
}

/// The code point that a surrogate pair encodes.
pub open spec fn pair_code_point(hi: u16, lo: u16) -> u32 {
    (0x1_0000 + (hi - 0xD800) * 0x400 + (lo - 0xDC00)) as u32
}

/// The code points that the UTF-16 text `s` encodes, or `None` when it
/// holds an unpaired surrogate.
pub open spec fn decode_utf16(s: Seq<u16>) -> Option<Seq<u32>>
    decreases s.len(),
{
    if s.len() == 0 {
        Some(Seq::empty())
    } else if is_high_surrogate(s[0]) {
        if s.len() >= 2 && is_low_surrogate(s[1]) {
            match decode_utf16(s.subrange(2, s.len() as int)) {
                Some(rest) => Some(seq![pair_code_point(s[0], s[1])] + rest),
                None => None,
            }
        } else {
            None
        }
    } else if is_low_surrogate(s[0]) {
        None
    } else {
        match decode_utf16(s.subrange(1, s.len() as int)) {
            Some(rest) => Some(seq![s[0] as u32] + rest),
            None => None,
        }
    }
}

/// The code points of a string.
pub open spec fn code_points(s: Seq<char>) -> Seq<u32> {
    s.map_values(|c: char| c as u32)
}

/// Whether `n` occurs in `h` as a contiguous run.
pub open spec fn occurs_in(h: Seq<u32>, n: Seq<u32>) -> bool {
    exists|i: int| 0 <= i <= h.len() - n.len() && #[trigger] h.subrange(i, i + n.len()) == n
}

spec fn prepend(p: Seq<u32>, o: Option<Seq<u32>>) -> Option<Seq<u32>> {
    match o {
        Some(r) => Some(p + r),
        None => None,
    }
}

/// Decodes UTF-16 text into code points; `None` when it holds an unpaired
/// surrogate.
pub fn decode_utf16_units(s: &Vec<u16>) -> (r: Option<Vec<u32>>)
    ensures
        match r {
            Some(v) => decode_utf16(s@) == Some(v@),
            None => decode_utf16(s@) is None,
        },
{
    let n = s.len();
    let mut out: Vec<u32> = Vec::new();
    let mut i: usize = 0;
    assert(s@.subrange(0, n as int) =~= s@);
    while i < n
        invariant
            n == s@.len(),
            i <= n,
            decode_utf16(s@) == prepend(out@, decode_utf16(s@.subrange(i as int, n as int))),
        decreases n - i,
    {
        let ghost rest = s@.subrange(i as int, n as int);
        let u = s[i];
        if 0xD800 <= u && u < 0xDC00 {
            if i + 1 < n && 0xDC00 <= s[i + 1] && s[i + 1] < 0xE000 {
                let lo = s[i + 1];
                let cp: u32 = 0x1_0000 + (u as u32 - 0xD800) * 0x400 + (lo as u32 - 0xDC00);
                proof {
                    assert(rest.subrange(2, rest.len() as int) =~= s@.subrange(
                        i + 2,
                        n as int,
                    ));
                    let tail = decode_utf16(s@.subrange(i + 2, n as int));
                    if let Some(t) = tail {
                        assert(out@ + (seq![cp] + t) =~= out@.push(cp) + t);
                    }
                }
                out.push(cp);
                i = i + 2;
            } else {
                return None;
            }
        } else if 0xDC00 <= u && u < 0xE000 {
            return None;
        } else {
            proof {
                assert(rest.subrange(1, rest.len() as int) =~= s@.subrange(i + 1, n as int));
                let tail = decode_utf16(s@.subrange(i + 1, n as int));
                if let Some(t) = tail {
                    assert(out@ + (seq![u as u32] + t) =~= out@.push(u as u32) + t);
                }
            }
            out.push(u as u32);
            i = i + 1;
        }
    }
    assert(s@.subrange(n as int, n as int) =~= Seq::<u16>::empty());
    assert(out@ + Seq::<u32>::empty() =~= out@);
    Some(out)
}

/// Whether `buffer` holds well-formed UTF-16 text.
pub fn is_valid_utf16(buffer: &Vec<u16>) -> (ok: bool)
    ensures
        ok == decode_utf16(buffer@) is Some,
{
    decode_utf16_units(buffer).is_some()
}

/// The characters of `s`.
pub fn chars_of(s: &str) -> (v: Vec<char>)
    ensures
        v@ == s@,
{
    broadcast use vstd::string::axiom_spec_iter, vstd::string::next_postcondition;

    let mut v: Vec<char> = Vec::new();
    let mut it = s.chars();
    loop
        invariant
            v@ + vstd::std_specs::iter::IteratorSpec::remaining(&it) == s@,
            vstd::std_specs::iter::IteratorSpec::decrease(&it) is Some,
        ensures
            v@ == s@,
        decreases vstd::std_specs::iter::IteratorSpec::decrease(&it)->0,
    {
        let ghost before = vstd::std_specs::iter::IteratorSpec::remaining(&it);
        match it.next() {
            Some(c) => {
                assert(v@.push(c) + before.drop_first() =~= v@ + before);
                v.push(c);
            },
            None => {
                assert(v@ + before =~= v@);
                break;
            },
        }
    }
    v
}

/// The code points of the characters `cs`.
pub fn code_points_of_chars(cs: &[char]) -> (v: Vec<u32>)
    ensures
        v@ == code_points(cs@),
{
    let mut v: Vec<u32> = Vec::new();
    let n = cs.len();
    for i in 0..n
        invariant
            n == cs@.len(),
            v@ =~= code_points(cs@.subrange(0, i as int)),
    {
        v.push(cs[i] as u32);
        assert(code_points(cs@.subrange(0, i + 1)) =~= code_points(cs@.subrange(0, i as int)).push(
            cs@[i as int] as u32,
        ));
    }
    assert(cs@.subrange(0, n as int) =~= cs@);
    v
}

/// Whether `n` occurs in `h` as a contiguous run.
pub fn occurs(h: &Vec<u32>, n: &Vec<u32>) -> (found: bool)
    ensures
        found == occurs_in(h@, n@),
{
    let hl = h.len();
    let nl = n.len();
    if nl > hl {
        return false;
    }
    let mut i: usize = 0;
    while i <= hl - nl
        invariant
            hl == h@.len(),
            nl == n@.len(),
            nl <= hl,
            i <= hl - nl + 1,
            forall|j: int| 0 <= j < i ==> #[trigger] h@.subrange(j, j + nl) != n@,
        decreases hl - nl + 1 - i,
    {
        let mut j: usize = 0;
        let mut same = true;
        while j < nl
            invariant
                hl == h@.len(),
                nl == n@.len(),
                i + nl <= hl,
                j <= nl,
                same == (forall|k: int| 0 <= k < j ==> h@[i + k] == n@[k]),
            decreases nl - j,
        {
            if h[i + j] != n[j] {
                same = false;
            }
            j = j + 1;
        }
        if same {
            assert(h@.subrange(i as int, i + nl) =~= n@);
            return true;
        }
        proof {
            let k0 = choose|k: int| 0 <= k < nl && h@[i + k] != n@[k];
            assert(h@.subrange(i as int, i + nl)[k0] != n@[k0]);
        }
        i = i + 1;
    }
    assert forall|j: int| 0 <= j <= h@.len() - n@.len() implies #[trigger] h@.subrange(
        j,
        j + n@.len(),
    ) != n@ by {}
    false
}

/// Whether the text in `buffer` contains `name`, as the search for a
/// process or a module by image name decides it.
pub fn name_contains(buffer: &Vec<u16>, name: &str) -> (found: bool)
    requires
        decode_utf16(buffer@) is Some,
    ensures
        found == occurs_in(decode_utf16(buffer@)->0, code_points(name@)),
{
    let text = match decode_utf16_units(buffer) {
        Some(t) => t,
        None => Vec::new(),
    };
    let name_chars = chars_of(name);
    let pattern = code_points_of_chars(name_chars.as_slice());
    occurs(&text, &pattern)
}

/// The outcome of a search for a name among image names, in order.
#[derive(Clone, Copy, PartialEq, Eq, Structural, Debug)]
pub enum NameSearch {
    /// The index of the first image name that holds the name.
    Found(usize),
    /// The index of the first image name that is not UTF-16 text, met
    /// before any that holds the name.
    Undecodable(usize),
    /// No image name holds the name.
    Missing,
}

/// Whether image name `b` is UTF-16 text that holds `name`.
pub open spec fn holds_name(b: Seq<u16>, name: Seq<char>) -> bool {
    decode_utf16(b) is Some && occurs_in(decode_utf16(b)->0, code_points(name))
}

/// Whether the first `i` image names are UTF-16 text and none holds `name`.
pub open spec fn passed_over(names: Seq<Vec<u16>>, name: Seq<char>, i: int) -> bool {
    forall|j: int|
        0 <= j < i ==> decode_utf16(#[trigger] names[j]@) is Some && !holds_name(
            names[j]@,
            name,
        )
}

/// Searches `names`, in order, for the first image name that holds `name`,
/// as the search for a process or a module does; it stops at the first
/// name that is not UTF-16 text.
pub fn find_name(names: &Vec<Vec<u16>>, name: &str) -> (r: NameSearch)
    ensures
        match r {
            NameSearch::Found(i) => i < names@.len() && passed_over(names@, name@, i as int)
                && holds_name(names@[i as int]@, name@),
            NameSearch::Undecodable(i) => i < names@.len() && passed_over(names@, name@, i as int)
                && decode_utf16(names@[i as int]@) is None,
            NameSearch::Missing => passed_over(names@, name@, names@.len() as int),
        },
{
    let mut i: usize = 0;
    while i < names.len()
        invariant
            i <= names@.len(),
            passed_over(names@, name@, i as int),
        decreases names@.len() - i,
    {
        if !is_valid_utf16(&names[i]) {
            return NameSearch::Undecodable(i);
        }
        if name_contains(&names[i], name) {
            return NameSearch::Found(i);
        }
        i = i + 1;
    }
    NameSearch::Missing
}

} // verus!
