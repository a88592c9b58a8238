//! The formats of the kernel files that hardware discovery reads.

use vstd::prelude::*;
use vstd::utf8::{decode_utf8, encode_utf8, valid_utf8};
use crate::cpuset::CpuIds;
use crate::model::FrequencyLimits;
use crate::number::{
    parse_hex, parse_u32, parse_u64, parsed_hex, parsed_unsigned, unsigned_error,
    unsigned_error_text,
};
use crate::order::{ascending, insert_ascending};
use crate::platform::{malformed, PlatformError, PlatformErrorView, PlatformResult};
use crate::text::{
    cat3, cat4, lines, lines_of, nonempty, parted, pieces, read_utf8, split, split_once,
    split_words, texts, trim, trimmed, words, Divider,
};
use super::scheduler::cpu_range;

verus! {

/// The frequency that one word of a list gives.
pub open spec fn list_frequency(path: Seq<char>, token: Seq<char>, multiplier: u64) -> Result<
    u64,
    PlatformErrorView,
> {
    match parsed_unsigned(token, u64::MAX as nat) {
        None => Err(
            malformed(
                path,
                "invalid frequency `"@ + token + "`: "@ + unsigned_error(token, u64::MAX as nat),
            ),
        ),
        Some(raw) => if raw * multiplier > u64::MAX {
            Err(malformed(path, "frequency `"@ + token + "` overflows hertz"@))
        } else {
            Ok((raw * multiplier) as u64)
        },
    }
}

/// The frequencies that the first `n` words give; the first bad one decides.
pub open spec fn list_frequencies(
    path: Seq<char>,
    tokens: Seq<Seq<char>>,
    n: nat,
    multiplier: u64,
) -> Result<Seq<u64>, PlatformErrorView>
    decreases n,
{
    if n == 0 {
        Ok(Seq::empty())
    } else {
        match list_frequencies(path, tokens, (n - 1) as nat, multiplier) {
            Err(e) => Err(e),
            Ok(before) => match list_frequency(path, tokens[n - 1], multiplier) {
                Err(e) => Err(e),
                Ok(f) => Ok(before.push(f)),
            },
        }
    }
}

/// The frequencies of a list, in hertz, in the order of the list.
pub open spec fn frequency_list(path: Seq<char>, value: Seq<char>, multiplier: u64) -> Result<
    Seq<u64>,
    PlatformErrorView,
> {
    let w = words(value, Divider::Space);
    list_frequencies(path, w, w.len(), multiplier)
}

proof fn frequencies_error_stands(
    path: Seq<char>,
    tokens: Seq<Seq<char>>,
    n: nat,
    k: nat,
    multiplier: u64,
)
    requires
        n <= k,
        list_frequencies(path, tokens, n, multiplier) is Err,
    ensures
        list_frequencies(path, tokens, k, multiplier) == list_frequencies(
            path,
            tokens,
            n,
            multiplier,
        ),
    decreases k,
{
    if n < k {
        frequencies_error_stands(path, tokens, n, (k - 1) as nat, multiplier);
    }
}

fn parse_list_frequency(path: &str, token: &str, multiplier: u64) -> (r: PlatformResult<u64>)
    ensures
        match r {
            Ok(f) => list_frequency(path@, token@, multiplier) == Ok::<u64, PlatformErrorView>(f),
            Err(e) => list_frequency(path@, token@, multiplier) == Err::<u64, PlatformErrorView>(
                e@,
            ),
        },
{
    match parse_u64(token) {
        None => {
            let why = unsigned_error_text(token, u64::MAX);
            let message = cat4("invalid frequency `", token, "`: ", why);
            Err(PlatformError::invalid(path, message.as_str()))
        },
        Some(raw) => match raw.checked_mul(multiplier) {
            None => {
                let message = cat3("frequency `", token, "` overflows hertz");
                Err(PlatformError::invalid(path, message.as_str()))
            },
            Some(f) => Ok(f),
        },
    }
}

/// The frequencies of a list of words, each counted in `multiplier` hertz.
pub fn parse_frequency_list(path: &str, value: &str, multiplier: u64) -> (r: PlatformResult<
    Vec<u64>,
>)
    ensures
        match r {
            Ok(v) => frequency_list(path@, value@, multiplier) == Ok::<
                Seq<u64>,
                PlatformErrorView,
            >(v@),
            Err(e) => frequency_list(path@, value@, multiplier) == Err::<
                Seq<u64>,
                PlatformErrorView,
            >(e@),
        },
{
    let tokens = split_words(value, Divider::Space);
    let ghost w = words(value@, Divider::Space);
    assert(w.len() == tokens@.len());
    let mut out: Vec<u64> = Vec::new();
    let mut i: usize = 0;
    while i < tokens.len()
        invariant
            i <= tokens@.len(),
            w == texts(tokens@),
            w == words(value@, Divider::Space),
            list_frequencies(path@, w, i as nat, multiplier) == Ok::<Seq<u64>, PlatformErrorView>(
                out@,
            ),
        decreases tokens@.len() - i,
    {
        assert(w[i as int] == tokens@[i as int]@);
        match parse_list_frequency(path, tokens[i].as_str(), multiplier) {
            Err(e) => {
                proof {
                    frequencies_error_stands(path@, w, (i + 1) as nat, w.len(), multiplier);
                }
                return Err(e);
            },
            Ok(f) => {
                out.push(f);
            },
        }
        i = i + 1;
    }
    Ok(out)
}

/// The first words of the first `n` lines, with spaces between them.
pub open spec fn columns_of(all: Seq<Seq<char>>, n: nat) -> Seq<char>
    decreases n,
{
    if n == 0 {
        Seq::empty()
    } else {
        let before = columns_of(all, (n - 1) as nat);
        let w = words(all[n - 1], Divider::Space);
        if w.len() == 0 {
            before
        } else {
            before + w[0] + " "@
        }
    }
}

/// The first words of the lines of a text, each with a space behind it.
pub fn first_columns(value: &str) -> (out: String)
    ensures
        out@ == columns_of(lines_of(value@), lines_of(value@).len()),
{
    let all = lines(value);
    let ghost v = lines_of(value@);
    assert(v.len() == all@.len());
    let mut out = String::new();
    let mut i: usize = 0;
    assert(out@ =~= Seq::<char>::empty());
    while i < all.len()
        invariant
            i <= all@.len(),
            v == texts(all@),
            v == lines_of(value@),
            out@ == columns_of(v, i as nat),
        decreases all@.len() - i,
    {
        assert(v[i as int] == all@[i as int]@);
        let w = split_words(all[i].as_str(), Divider::Space);
        assert(texts(w@).len() == w@.len());
        if w.len() > 0 {
            assert(texts(w@)[0] == w@[0]@);
            out = cat3(out.as_str(), w[0].as_str(), " ");
        }
        i = i + 1;
    }
    out
}

/// The operating points that a target offers: those inside its limits and the
/// limits themselves; none where none are known.
pub open spec fn offered(frequencies: Seq<u64>, limits: FrequencyLimits) -> Set<u64> {
    if frequencies.len() == 0 {
        Set::empty()
    } else {
        Set::new(
            |f: u64|
                f == limits.min || f == limits.max || (frequencies.contains(f) && limits.min <= f
                    <= limits.max),
        )
    }
}

/// The operating points that a target offers, in ascending order.
pub fn normalize_opps(frequencies: &Vec<u64>, limits: FrequencyLimits) -> (out: Vec<u64>)
    ensures
        ascending(out@),
        out@.to_set() == offered(frequencies@, limits),
{
    let mut out: Vec<u64> = Vec::new();
    if frequencies.len() == 0 {
        assert(out@.to_set() =~= offered(frequencies@, limits));
        return out;
    }
    insert_ascending(&mut out, limits.min);
    insert_ascending(&mut out, limits.max);
    let mut i: usize = 0;
    assert(out@.to_set() =~= Set::new(|f: u64| f == limits.min || f == limits.max));
    while i < frequencies.len()
        invariant
            i <= frequencies@.len(),
            ascending(out@),
            forall|f: u64| #[trigger]
                out@.to_set().contains(f) <==> (f == limits.min || f == limits.max || (
                frequencies@.take(i as int).contains(f) && limits.min <= f <= limits.max)),
        decreases frequencies@.len() - i,
    {
        let f: u64 = frequencies[i];
        let ghost prior = out@.to_set();
        if limits.min <= f && f <= limits.max {
            insert_ascending(&mut out, f);
        }
        proof {
            let t = frequencies@.take(i as int);
            let u = frequencies@.take(i + 1);
            assert(u =~= t.push(f));
            assert(u[i as int] == f);
            assert forall|g: u64| u.contains(g) <==> (t.contains(g) || g == f) by {
                if t.contains(g) {
                    let k = choose|k: int| 0 <= k < t.len() && t[k] == g;
                    assert(u[k] == g);
                }
                if u.contains(g) && g != f {
                    let k = choose|k: int| 0 <= k < u.len() && u[k] == g;
                    assert(t[k] == g);
                }
            }
        }
        i = i + 1;
    }
    assert(frequencies@.take(frequencies@.len() as int) =~= frequencies@);
    assert(out@.to_set() =~= offered(frequencies@, limits));
    out
}

/// A CPU number, or why there is none.
pub open spec fn cpu_id(path: Seq<char>, value: Seq<char>) -> Result<u32, PlatformErrorView> {
    match parsed_unsigned(value, u32::MAX as nat) {
        Some(n) => Ok(n as u32),
        None => Err(
            malformed(
                path,
                "invalid CPU ID `"@ + value + "`: "@ + unsigned_error(value, u32::MAX as nat),
            ),
        ),
    }
}

/// A CPU number.
pub fn parse_cpu_id(path: &str, value: &str) -> (r: PlatformResult<u32>)
    ensures
        match r {
            Ok(n) => cpu_id(path@, value@) == Ok::<u32, PlatformErrorView>(n),
            Err(e) => cpu_id(path@, value@) == Err::<u32, PlatformErrorView>(e@),
        },
{
    match parse_u32(value) {
        Some(n) => Ok(n),
        None => {
            let why = unsigned_error_text(value, u32::MAX as u64);
            let message = cat4("invalid CPU ID `", value, "`: ", why);
            Err(PlatformError::invalid(path, message.as_str()))
        },
    }
}

/// The CPUs that one word gives, or why it gives none.
pub open spec fn cpu_word(path: Seq<char>, token: Seq<char>) -> Result<Set<u32>, PlatformErrorView> {
    match parted(token, '-') {
        Some((a, b)) => match cpu_id(path, a) {
            Err(e) => Err(e),
            Ok(start) => match cpu_id(path, b) {
                Err(e) => Err(e),
                Ok(end) => if start > end {
                    Err(malformed(path, "reversed CPU range `"@ + token + "`"@))
                } else {
                    Ok(cpu_range(start, end))
                },
            },
        },
        None => match cpu_id(path, token) {
            Err(e) => Err(e),
            Ok(cpu) => Ok(cpu_range(cpu, cpu)),
        },
    }
}

/// The CPUs that the first `n` words give; the first bad one decides.
pub open spec fn cpu_words(path: Seq<char>, tokens: Seq<Seq<char>>, n: nat) -> Result<
    Set<u32>,
    PlatformErrorView,
>
    decreases n,
{
    if n == 0 {
        Ok(Set::empty())
    } else {
        match cpu_words(path, tokens, (n - 1) as nat) {
            Err(e) => Err(e),
            Ok(before) => match cpu_word(path, tokens[n - 1]) {
                Err(e) => Err(e),
                Ok(set) => Ok(before.union(set)),
            },
        }
    }
}

/// The CPUs of a policy: numbers and ranges between commas and white space.
pub open spec fn cpu_set(path: Seq<char>, value: Seq<char>) -> Result<Set<u32>, PlatformErrorView> {
    let w = words(value, Divider::CommaOrSpace);
    cpu_words(path, w, w.len())
}

proof fn cpu_error_stands(path: Seq<char>, tokens: Seq<Seq<char>>, n: nat, k: nat)
    requires
        n <= k,
        cpu_words(path, tokens, n) is Err,
    ensures
        cpu_words(path, tokens, k) == cpu_words(path, tokens, n),
    decreases k,
{
    if n < k {
        cpu_error_stands(path, tokens, n, (k - 1) as nat);
    }
}

/// Adds the CPUs from `start` to `end`.
fn add_range(cpus: &mut CpuIds, start: u32, end: u32)
    requires
        start <= end,
    ensures
        final(cpus)@ == old(cpus)@.union(cpu_range(start, end)),
{
    let ghost before = cpus@;
    let mut cpu: u32 = start;
    cpus.insert(cpu);
    assert(cpus@ =~= before.union(cpu_range(start, cpu)));
    while cpu < end
        invariant
            start <= cpu <= end,
            cpus@ == before.union(cpu_range(start, cpu)),
        decreases end - cpu,
    {
        cpu = cpu + 1;
        cpus.insert(cpu);
        assert(cpus@ =~= before.union(cpu_range(start, cpu)));
    }
}

/// Adds the CPUs that one word gives.
fn take_cpu_word(path: &str, token: &str, cpus: &mut CpuIds) -> (r: PlatformResult<()>)
    ensures
        match r {
            Ok(()) => cpu_word(path@, token@) is Ok && final(cpus)@ == old(cpus)@.union(
                cpu_word(path@, token@)->Ok_0,
            ),
            Err(e) => cpu_word(path@, token@) == Err::<Set<u32>, PlatformErrorView>(e@),
        },
{
    match split_once(token, '-') {
        Some((a, b)) => {
            let start: u32 = match parse_cpu_id(path, a.as_str()) {
                Err(e) => {
                    return Err(e);
                },
                Ok(n) => n,
            };
            let end: u32 = match parse_cpu_id(path, b.as_str()) {
                Err(e) => {
                    return Err(e);
                },
                Ok(n) => n,
            };
            if start > end {
                let message = cat3("reversed CPU range `", token, "`");
                return Err(PlatformError::invalid(path, message.as_str()));
            }
            add_range(cpus, start, end);
            Ok(())
        },
        None => match parse_cpu_id(path, token) {
            Err(e) => Err(e),
            Ok(cpu) => {
                add_range(cpus, cpu, cpu);
                Ok(())
            },
        },
    }
}

/// The CPUs of a policy.
pub fn parse_cpu_set(path: &str, value: &str) -> (r: PlatformResult<CpuIds>)
    ensures
        match r {
            Ok(s) => cpu_set(path@, value@) == Ok::<Set<u32>, PlatformErrorView>(s@),
            Err(e) => cpu_set(path@, value@) == Err::<Set<u32>, PlatformErrorView>(e@),
        },
{
    let tokens = split_words(value, Divider::CommaOrSpace);
    let ghost w = words(value@, Divider::CommaOrSpace);
    assert(w.len() == tokens@.len());
    let mut cpus = CpuIds::new();
    let mut i: usize = 0;
    while i < tokens.len()
        invariant
            i <= tokens@.len(),
            w == texts(tokens@),
            w == words(value@, Divider::CommaOrSpace),
            cpu_words(path@, w, i as nat) == Ok::<Set<u32>, PlatformErrorView>(cpus@),
        decreases tokens@.len() - i,
    {
        assert(w[i as int] == tokens@[i as int]@);
        if let Err(e) = take_cpu_word(path, tokens[i].as_str(), &mut cpus) {
            proof {
                cpu_error_stands(path@, w, (i + 1) as nat, w.len());
            }
            return Err(e);
        }
        i = i + 1;
    }
    Ok(cpus)
}

/// The FNV-1a hash of bytes: a deterministic suffix, not a guard against
/// collisions.
pub open spec fn fnv(bytes: Seq<u8>) -> u64
    decreases bytes.len(),
{
    if bytes.len() == 0 {
        0xcbf2_9ce4_8422_2325u64
    } else {
        ((fnv(bytes.drop_last()) ^ (bytes.last() as u64)) as int * 0x0000_0100_0000_01b3int
            % 0x1_0000_0000_0000_0000int) as u64
    }
}

/// The hash of a path.
pub fn stable_path_hash(path: &str) -> (r: u64)
    ensures
        r == fnv(encode_utf8(path@)),
{
    let bytes = path.as_bytes();
    let mut hash: u64 = 0xcbf2_9ce4_8422_2325u64;
    let mut i: usize = 0;
    assert(bytes@.take(0) =~= Seq::empty());
    while i < bytes.len()
        invariant
            i <= bytes@.len(),
            hash == fnv(bytes@.take(i as int)),
        decreases bytes@.len() - i,
    {
        assert(bytes@.take(i + 1).drop_last() =~= bytes@.take(i as int));
        assert(bytes@.take(i + 1).last() == bytes@[i as int]);
        hash = (hash ^ (bytes[i] as u64)).wrapping_mul(0x0000_0100_0000_01b3);
        i = i + 1;
    }
    assert(bytes@.take(bytes@.len() as int) =~= bytes@);
    hash
}

/// The words of a bitmap that are numbers, the last one first.
pub open spec fn bitmap_words(tokens: Seq<Seq<char>>) -> Seq<u64>
    decreases tokens.len(),
{
    if tokens.len() == 0 {
        Seq::empty()
    } else {
        let rest = bitmap_words(tokens.drop_last());
        match parsed_hex(tokens.last()) {
            Some(x) => seq![x] + rest,
            None => rest,
        }
    }
}

/// Whether a bit of a printed bitmap is set. The most significant word is
/// printed first.
pub open spec fn bitmap_has(mask: Seq<char>, bit: nat) -> bool {
    let w = bitmap_words(words(mask, Divider::Space));
    let word = (bit / (usize::BITS as nat)) as int;
    let at = (bit % (usize::BITS as nat)) as u64;
    word < w.len() && w[word] & (1u64 << at) != 0
}

/// Whether a bit of a printed bitmap is set.
pub fn linux_capability_bit(mask: &str, bit: usize) -> (r: bool)
    ensures
        r == bitmap_has(mask@, bit as nat),
{
    let tokens = split_words(mask, Divider::Space);
    let ghost w = words(mask@, Divider::Space);
    assert(w.len() == tokens@.len());
    let mut found: Vec<u64> = Vec::new();
    let mut n: usize = tokens.len();
    assert(w.take(n as int) =~= w);
    assert(found@ + bitmap_words(w.take(n as int)) =~= bitmap_words(w));
    while n > 0
        invariant
            n <= tokens@.len(),
            w == texts(tokens@),
            w == words(mask@, Divider::Space),
            found@ + bitmap_words(w.take(n as int)) == bitmap_words(w),
        decreases n,
    {
        let ghost prior = found@;
        assert(w[n - 1] == tokens@[n - 1]@);
        assert(w.take(n as int).drop_last() =~= w.take(n - 1));
        if let Some(x) = parse_hex(tokens[n - 1].as_str()) {
            found.push(x);
            assert(prior + (seq![x] + bitmap_words(w.take(n - 1))) =~= found@ + bitmap_words(
                w.take(n - 1),
            ));
        }
        n = n - 1;
    }
    assert(w.take(0) =~= Seq::empty());
    assert(found@ + Seq::<u64>::empty() =~= found@);
    let word_bits: usize = usize::BITS as usize;
    let word: usize = bit / word_bits;
    let at: u64 = (bit % word_bits) as u64;
    word < found.len() && found[word] & (1u64 << at) != 0
}

/// Whether a device reports contacts by slot: slot, both position axes and the
/// tracking number.
pub open spec fn type_b_axes(mask: Seq<char>) -> bool {
    bitmap_has(mask, 0x2f) && bitmap_has(mask, 0x35) && bitmap_has(mask, 0x36) && bitmap_has(
        mask,
        0x39,
    )
}

/// Whether a device reports contacts by slot. A slot axis alone is not enough:
/// a device is only opened with tracking numbers and both position axes.
pub fn has_type_b_multitouch_axes(mask: &str) -> (r: bool)
    ensures
        r == type_b_axes(mask@),
{
    linux_capability_bit(mask, 0x2f) && linux_capability_bit(mask, 0x35) && linux_capability_bit(
        mask,
        0x36,
    ) && linux_capability_bit(mask, 0x39)
}

/// The bytes before the first zero byte.
pub open spec fn before_nul(bytes: Seq<u8>) -> Seq<u8>
    decreases bytes.len(),
{
    if bytes.len() == 0 || bytes[0] == 0 {
        Seq::empty()
    } else {
        seq![bytes[0]] + before_nul(bytes.drop_first())
    }
}

/// The text before the first zero byte, unless it is blank or no UTF-8.
pub open spec fn nul_terminated(bytes: Seq<u8>) -> Option<Seq<char>> {
    let b = before_nul(bytes);
    if valid_utf8(b) && trimmed(decode_utf8(b)).len() > 0 {
        Some(trimmed(decode_utf8(b)))
    } else {
        None
    }
}

/// The bytes from `from` to the next zero byte, and where that stands.
fn take_until_nul(bytes: &[u8], from: usize) -> (r: (Vec<u8>, usize))
    requires
        from <= bytes@.len(),
    ensures
        r.0@ == before_nul(bytes@.skip(from as int)),
        r.1 == from + r.0@.len(),
        from <= r.1 <= bytes@.len(),
        r.1 < bytes@.len() ==> bytes@[r.1 as int] == 0,
{
    let mut out: Vec<u8> = Vec::new();
    let mut i: usize = from;
    assert(out@ + before_nul(bytes@.skip(i as int)) =~= before_nul(bytes@.skip(from as int)));
    while i < bytes.len() && bytes[i] != 0
        invariant
            from <= i <= bytes@.len(),
            i == from + out@.len(),
            out@ + before_nul(bytes@.skip(i as int)) == before_nul(bytes@.skip(from as int)),
        decreases bytes@.len() - i,
    {
        let ghost prior = out@;
        let ghost rest = bytes@.skip(i as int);
        out.push(bytes[i]);
        i = i + 1;
        proof {
            assert(rest[0] == bytes@[i - 1]);
            assert(rest.drop_first() =~= bytes@.skip(i as int));
            assert(prior + (seq![rest[0]] + before_nul(rest.drop_first())) =~= out@ + before_nul(
                bytes@.skip(i as int),
            ));
        }
    }
    proof {
        let rest = bytes@.skip(i as int);
        assert(i < bytes@.len() ==> rest[0] == bytes@[i as int]);
        assert(out@ + before_nul(rest) =~= out@);
    }
    (out, i)
}

/// The text before the first zero byte, unless it is blank or no UTF-8.
pub fn nul_terminated_string(bytes: &[u8]) -> (r: Option<String>)
    ensures
        crate::text::opt_text(r) == nul_terminated(bytes@),
{
    assert(bytes@.skip(0) =~= bytes@);
    let (head, _end) = take_until_nul(bytes, 0);
    match read_utf8(head.as_slice()) {
        Err(_) => None,
        Ok(s) => {
            let value = trim(s.as_str());
            if value.as_str().is_empty() {
                None
            } else {
                Some(value)
            }
        },
    }
}

/// The texts between zero bytes, without empty ones and those that are no
/// UTF-8.
pub open spec fn nul_texts(bytes: Seq<u8>) -> Seq<Seq<char>>
    decreases bytes.len(),
{
    let b = before_nul(bytes);
    let first = if valid_utf8(b) && decode_utf8(b).len() > 0 {
        seq![decode_utf8(b)]
    } else {
        Seq::empty()
    };
    if b.len() >= bytes.len() {
        first
    } else {
        first + nul_texts(bytes.skip(b.len() as int + 1))
    }
}

/// The texts between zero bytes.
pub fn nul_separated(bytes: &[u8]) -> (out: Vec<String>)
    ensures
        texts(out@) == nul_texts(bytes@),
{
    let mut out: Vec<String> = Vec::new();
    let mut from: usize = 0;
    let mut done = false;
    assert(bytes@.skip(0) =~= bytes@);
    assert(texts(out@) + nul_texts(bytes@) =~= nul_texts(bytes@));
    while !done
        invariant
            from <= bytes@.len(),
            !done ==> texts(out@) + nul_texts(bytes@.skip(from as int)) == nul_texts(bytes@),
            done ==> texts(out@) == nul_texts(bytes@),
        decreases bytes@.len() - from + (if done {
            0int
        } else {
            1
        }),
    {
        let ghost prior = texts(out@);
        let ghost rest = bytes@.skip(from as int);
        let (part, end) = take_until_nul(bytes, from);
        let ghost b = before_nul(rest);
        if let Ok(s) = read_utf8(part.as_slice()) {
            if !s.as_str().is_empty() {
                out.push(s);
                assert(texts(out@) =~= prior + seq![decode_utf8(b)]);
            } else {
                assert(prior + Seq::<Seq<char>>::empty() =~= prior);
            }
        } else {
            assert(prior + Seq::<Seq<char>>::empty() =~= prior);
        }
        let ghost first: Seq<Seq<char>> = if valid_utf8(b) && decode_utf8(b).len() > 0 {
            seq![decode_utf8(b)]
        } else {
            Seq::empty()
        };
        assert(texts(out@) == prior + first);
        if end < bytes.len() {
            proof {
                assert(rest.skip(b.len() as int + 1) =~= bytes@.skip(end + 1));
                assert(prior + (first + nul_texts(bytes@.skip(end + 1))) =~= texts(out@)
                    + nul_texts(bytes@.skip(end + 1)));
            }
            from = end + 1;
        } else {
            done = true;
        }
    }
    out
}

/// Whether a list of words between zero characters holds the text.
pub open spec fn blank_free(v: Seq<Seq<char>>, n: nat) -> Seq<Seq<char>>
    decreases n,
{
    if n == 0 {
        Seq::empty()
    } else {
        let before = blank_free(v, (n - 1) as nat);
        if trimmed(v[n - 1]).len() == 0 {
            before
        } else {
            before.push(trimmed(v[n - 1]))
        }
    }
}

/// The names in a list whose entries end in a zero character, trimmed, without
/// blank ones.
pub open spec fn compatible_names(value: Seq<char>) -> Seq<Seq<char>> {
    let p = pieces(value, Divider::Char('\0'));
    blank_free(p, p.len())
}

/// The names in a list whose entries end in a zero character.
pub fn parse_compatible(value: &str) -> (out: Vec<String>)
    ensures
        texts(out@) == compatible_names(value@),
{
    let parts = split(value, Divider::Char('\0'));
    let ghost p = pieces(value@, Divider::Char('\0'));
    assert(p.len() == parts@.len());
    let mut out: Vec<String> = Vec::new();
    let mut i: usize = 0;
    assert(texts(out@) =~= Seq::empty());
    while i < parts.len()
        invariant
            i <= parts@.len(),
            p == texts(parts@),
            p == pieces(value@, Divider::Char('\0')),
            texts(out@) == blank_free(p, i as nat),
        decreases parts@.len() - i,
    {
        assert(p[i as int] == parts@[i as int]@);
        let name = trim(parts[i].as_str());
        if !name.as_str().is_empty() {
            let ghost prior = texts(out@);
            let ghost added = name@;
            out.push(name);
            assert(texts(out@) =~= prior.push(added));
        }
        i = i + 1;
    }
    out
}

/// The first name in a list whose entries end in a zero character, as it
/// stands.
pub fn first_compatible(value: &str) -> (r: Option<String>)
    ensures
        ({
            let w = nonempty(pieces(value@, Divider::Char('\0')));
            crate::text::opt_text(r) == (if w.len() == 0 {
                None
            } else {
                Some(w[0])
            })
        }),
{
    let w = split_words(value, Divider::Char('\0'));
    assert(texts(w@).len() == w@.len());
    if w.len() == 0 {
        None
    } else {
        assert(texts(w@)[0] == w@[0]@);
        Some(w[0].as_str().to_owned())
    }
}

/// A policy that offers any operating points offers both of its limits, and
/// none outside them.
pub proof fn offered_points_lie_within(frequencies: Seq<u64>, limits: FrequencyLimits, f: u64)
    requires
        limits.min <= limits.max,
    ensures
        offered(frequencies, limits).contains(f) ==> limits.min <= f <= limits.max,
        frequencies.len() > 0 ==> offered(frequencies, limits).contains(limits.min) && offered(
            frequencies,
            limits,
        ).contains(limits.max),
{
}

} // verus!
