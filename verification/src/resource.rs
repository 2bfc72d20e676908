//! Reading the outputs of the commands that report a remote machine's load.
use vstd::prelude::*;
use crate::text::{chars_of, parse_bounded, parse_unsigned, split_words, string_from_chars, sub_chars, words};

verus! {

broadcast use vstd::string::group_string_axioms;

/// Whether `t` occurs in `s`.
pub open spec fn contains_text(s: Seq<char>, t: Seq<char>) -> bool {
    exists|i: int| 0 <= i && i + t.len() <= s.len() && #[trigger] s.subrange(i, i + t.len()) == t
}

/// The numbers among `ws`, in order: the words that parse as `u64`.
pub open spec fn numbers(ws: Seq<Seq<char>>) -> Seq<u64>
    decreases ws.len(),
{
    if ws.len() == 0 {
        seq![]
    } else {
        (match parse_unsigned(ws[0], u64::MAX as nat) {
            Some(n) => seq![n as u64],
            None => seq![],
        }) + numbers(ws.drop_first())
    }
}

/// The sum of `s`.
pub open spec fn sum(s: Seq<u64>) -> int
    decreases s.len(),
{
    if s.len() == 0 {
        0
    } else {
        sum(s.drop_last()) + s.last()
    }
}

/// The CPU counters of the `cpu` line of `/proc/stat`: the numbers after the
/// first word; the idle time (the fourth) and the total, when there are at
/// least four.
pub open spec fn cpu_counters_spec(output: Seq<char>) -> Option<(u64, int)> {
    let ws = words(output);
    let ns = numbers(if ws.len() > 0 { ws.skip(1) } else { ws });
    if ns.len() >= 4 {
        Some((ns[3], sum(ns)))
    } else {
        None
    }
}

/// The first two numbers of an output, when it has two.
pub open spec fn number_pair_spec(output: Seq<char>) -> Option<(u64, u64)> {
    let ns = numbers(words(output));
    if ns.len() >= 2 {
        Some((ns[0], ns[1]))
    } else {
        None
    }
}

/// `s` without any number of leading `"up "`.
pub open spec fn strip_up(s: Seq<char>) -> Seq<char>
    decreases s.len(),
{
    if s.len() >= 3 && s[0] == 'u' && s[1] == 'p' && s[2] == ' ' {
        strip_up(s.skip(3))
    } else {
        s
    }
}

/// Reading the outputs of the commands that report a remote machine's CPU,
/// memory and uptime. Running the commands is the caller's part.
pub struct ResourceService;

impl ResourceService {
    /// Whether the operating system name reported by `uname -s` is Linux.
    pub fn is_linux(os_type: &str) -> (r: bool)
        ensures
            r == contains_text(os_type@, "Linux"@),
    {
        let s = chars_of(os_type);
        let t = chars_of("Linux");
        let n = s.len();
        let m = t.len();
        if m > n {
            assert(!contains_text(os_type@, "Linux"@));
            return false;
        }
        let mut i: usize = 0;
        while i <= n - m
            invariant
                n == s.len(),
                m == t.len(),
                m <= n,
                s@ == os_type@,
                t@ == "Linux"@,
                i <= n - m + 1,
                forall|k: int| 0 <= k < i ==> #[trigger] s@.subrange(k, k + m) != t@,
            decreases n - i,
        {
            let mut j: usize = 0;
            let mut same = true;
            while j < m
                invariant
                    j <= m,
                    i + m <= n == s.len(),
                    m == t.len(),
                    same == (forall|k: int| 0 <= k < j ==> s@[i + k] == t@[k]),
                decreases m - j,
            {
                if s[i + j] != t[j] {
                    same = false;
                }
                j += 1;
            }
            if same {
                assert(s@.subrange(i as int, i + m) =~= t@);
                return true;
            }
            assert(s@.subrange(i as int, i + m) != t@) by {
                let k = choose|k: int| 0 <= k < m && s@[i + k] != t@[k];
                assert(s@.subrange(i as int, i + m)[k] == s@[i + k]);
            }
            i += 1;
        }
        proof {
            assert forall|k: int| 0 <= k && k + m <= n implies #[trigger] s@.subrange(k, k + m) != t@ by {
                assert(k < i);
            }
        }
        false
    }

    /// The numbers among the words of `output` that parse as `u64`, in order.
    pub fn parse_numbers(output: &str) -> (r: Vec<u64>)
        ensures
            r@ == numbers(words(output@)),
    {
        let ws = split_words(&chars_of(output));
        let r = numbers_of(&ws, 0);
        assert(ws@.map_values(|w: Vec<char>| w@).skip(0) =~= ws@.map_values(|w: Vec<char>| w@));
        r
    }


    /// The idle time and the total of the CPU counters on the `cpu` line of
    /// `/proc/stat`, when the line has at least four.
    pub fn cpu_counters(output: &str) -> (r: Option<(u64, u128)>)
        ensures
            match r {
                Some((idle, total)) => cpu_counters_spec(output@) == Some((idle, total as int)),
                None => cpu_counters_spec(output@) is None,
            },
    {
        let ws = split_words(&chars_of(output));
        let ghost all = ws@.map_values(|w: Vec<char>| w@);
        let ns = if ws.len() > 0 {
            numbers_of(&ws, 1)
        } else {
            numbers_of(&ws, 0)
        };
        assert(all.skip(0) =~= all);
        if ns.len() < 4 {
            return None;
        }
        let mut total: u128 = 0;
        let mut i: usize = 0;
        while i < ns.len()
            invariant
                i <= ns.len(),
                total as int == sum(ns@.take(i as int)),
                total <= i * (u64::MAX as int),
                ns.len() <= usize::MAX,
            decreases ns.len() - i,
        {
            assert(ns@.take(i + 1).drop_last() =~= ns@.take(i as int));
            assert((i + 1) * (u64::MAX as int) == i * (u64::MAX as int) + u64::MAX) by (nonlinear_arith);
            assert(i * (u64::MAX as int) + u64::MAX <= u128::MAX) by (nonlinear_arith)
                requires
                    i < usize::MAX,
                    usize::MAX <= u64::MAX,
            ;
            total = total + ns[i] as u128;
            i += 1;
        }
        assert(ns@.take(ns.len() as int) =~= ns@);
        Some((ns[3], total))
    }

    /// The first two numbers of an output, as `free -m` and the memory fallback
    /// print used and total memory; none when there are fewer than two.
    pub fn number_pair(output: &str) -> (r: Option<(u64, u64)>)
        ensures
            r == number_pair_spec(output@),
    {
        let ns = Self::parse_numbers(output);
        if ns.len() >= 2 {
            Some((ns[0], ns[1]))
        } else {
            None
        }
    }


    /// The memory figures of the fallback command's output (used and total
    /// MiB, as `vm_stat` is reduced to print them): its first two numbers,
    /// or zeros when it has fewer.
    pub fn memory_fallback(output: &str) -> (r: (u64, u64))
        ensures
            r == (match number_pair_spec(output@) {
                Some(p) => p,
                None => (0u64, 0u64),
            }),
    {
        match Self::number_pair(output) {
            Some(p) => p,
            None => (0, 0),
        }
    }

    /// The output of `uptime -p` without its leading `"up "`.
    pub fn uptime_text(output: &str) -> (r: String)
        ensures
            r@ == strip_up(output@),
    {
        let v = chars_of(output);
        let n = v.len();
        let mut i: usize = 0;
        assert(v@.skip(0) =~= v@);
        while up_prefix_at(&v, i)
            invariant
                i <= n == v.len(),
                strip_up(v@) == strip_up(v@.skip(i as int)),
            decreases n - i,
        {
            assert(v@.skip(i as int).skip(3) =~= v@.skip(i + 3));
            i += 3;
        }
        let rest = sub_chars(&v, i, n);
        assert(rest@ =~= v@.skip(i as int));
        string_from_chars(&rest)
    }
}

fn numbers_of(ws: &Vec<Vec<char>>, from: usize) -> (r: Vec<u64>)
    requires
        from <= ws.len(),
    ensures
        r@ == numbers(ws@.map_values(|w: Vec<char>| w@).skip(from as int)),
{
    let ghost all = ws@.map_values(|w: Vec<char>| w@);
    let mut r: Vec<u64> = Vec::new();
    let mut i = from;
    assert(all.skip(from as int) =~= all.skip(from as int));
    while i < ws.len()
        invariant
            from <= i <= ws.len(),
            all == ws@.map_values(|w: Vec<char>| w@),
            numbers(all.skip(from as int)) == r@ + numbers(all.skip(i as int)),
        decreases ws.len() - i,
    {
        assert(all.skip(i as int)[0] == ws@[i as int]@);
        assert(all.skip(i as int).drop_first() =~= all.skip(i + 1));
        match parse_bounded(&ws[i], u64::MAX) {
            Some(n) => {
                r.push(n);
            },
            None => {},
        }
        i += 1;
    }
    assert(all.skip(ws.len() as int) =~= Seq::<Seq<char>>::empty());
    r
}

fn up_prefix_at(v: &Vec<char>, i: usize) -> (r: bool)
    requires
        i <= v.len(),
    ensures
        r == (v@.skip(i as int).len() >= 3 && v@.skip(i as int)[0] == 'u' && v@.skip(i as int)[1]
            == 'p' && v@.skip(i as int)[2] == ' '),
{
    v.len() - i >= 3 && v[i] == 'u' && v[i + 1] == 'p' && v[i + 2] == ' '
}

} // verus!
