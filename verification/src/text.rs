//! Text primitives: the views, splitting rules and number syntax that the
//! parsers and formatters of this crate share.

use vstd::prelude::*;
use vstd::utf8::{decode_utf8, encode_utf8, encode_utf8_decode_utf8, valid_utf8};

verus! {

/// Appends one character to a string.
///
/// `String::push` is documented to append the given `char` to the end of the
/// string; the contract states exactly that over the view.
pub assume_specification[ String::push ](s: &mut String, c: char)
    ensures
        final(s)@ == old(s)@.push(c),
;

/// The views of a sequence of strings.
pub open spec fn texts(v: Seq<String>) -> Seq<Seq<char>> {
    Seq::new(v.len(), |i: int| v[i]@)
}

/// The view of an optional string.
pub open spec fn opt_text(v: Option<String>) -> Option<Seq<char>> {
    match v {
        Some(s) => Some(s@),
        None => None,
    }
}

/// The characters of `s`, in order.
pub fn chars_of(s: &str) -> (out: Vec<char>)
    ensures
        out@ == s@,
{
    let mut out: Vec<char> = Vec::new();
    for c in it: s.chars()
        invariant
            it.seq() == s@,
            out@ == s@.take(it.index() as int),
    {
        out.push(c);
    }
    proof {
        assert(s@.take(s@.len() as int) =~= s@);
    }
    out
}

/// The string made of `chars[from..to]`.
pub fn string_of(chars: &Vec<char>, from: usize, to: usize) -> (out: String)
    requires
        from <= to <= chars@.len(),
    ensures
        out@ == chars@.subrange(from as int, to as int),
{
    let mut out = String::new();
    let mut i: usize = from;
    while i < to
        invariant
            from <= i <= to <= chars@.len(),
            out@ == chars@.subrange(from as int, i as int),
        decreases to - i,
    {
        out.push(chars[i]);
        i = i + 1;
        assert(out@ =~= chars@.subrange(from as int, i as int));
    }
    out
}

/// Whether two byte slices are equal.
fn same_bytes(a: &[u8], b: &[u8]) -> (r: bool)
    ensures
        r == (a@ == b@),
{
    if a.len() != b.len() {
        return false;
    }
    let mut i: usize = 0;
    while i < a.len()
        invariant
            i <= a.len(),
            a.len() == b.len(),
            forall|j: int| 0 <= j < i ==> a@[j] == b@[j],
        decreases a.len() - i,
    {
        if a[i] != b[i] {
            return false;
        }
        i = i + 1;
    }
    assert(a@ =~= b@);
    true
}

/// Whether two strings hold the same characters.
pub fn same(a: &str, b: &str) -> (r: bool)
    ensures
        r == (a@ == b@),
{
    let r = same_bytes(a.as_bytes(), b.as_bytes());
    proof {
        encode_utf8_decode_utf8(a@);
        encode_utf8_decode_utf8(b@);
    }
    r
}

/// Whether `s` begins with `p`.
pub open spec fn has_prefix(s: Seq<char>, p: Seq<char>) -> bool {
    p.len() <= s.len() && s.take(p.len() as int) == p
}

/// Whether `s` ends with `p`.
pub open spec fn has_suffix(s: Seq<char>, p: Seq<char>) -> bool {
    p.len() <= s.len() && s.skip(s.len() - p.len()) == p
}

/// Whether `p` occurs in `s`.
pub open spec fn has_infix(s: Seq<char>, p: Seq<char>) -> bool {
    exists|k: int| #![trigger s.skip(k)] 0 <= k <= s.len() && has_prefix(s.skip(k), p)
}

/// Whether `p` stands in `s` at position `at`.
fn matches_at(s: &Vec<char>, at: usize, p: &Vec<char>) -> (r: bool)
    requires
        at <= s@.len(),
    ensures
        r == has_prefix(s@.skip(at as int), p@),
{
    let n: usize = s.len();
    if p.len() > n - at {
        return false;
    }
    let mut i: usize = 0;
    while i < p.len()
        invariant
            n == s@.len(),
            i <= p@.len() <= n - at,
            at <= s@.len(),
            forall|j: int| 0 <= j < i ==> s@[at + j] == p@[j],
        decreases p@.len() - i,
    {
        if s[at + i] != p[i] {
            assert(s@.skip(at as int).take(p@.len() as int)[i as int] != p@[i as int]);
            return false;
        }
        i = i + 1;
    }
    assert(s@.skip(at as int).take(p@.len() as int) =~= p@);
    true
}

/// `str::starts_with` for a string pattern.
pub fn starts_with(s: &str, p: &str) -> (r: bool)
    ensures
        r == has_prefix(s@, p@),
{
    let sc = chars_of(s);
    let pc = chars_of(p);
    assert(sc@.skip(0) =~= sc@);
    matches_at(&sc, 0, &pc)
}

/// `str::ends_with` for a string pattern.
pub fn ends_with(s: &str, p: &str) -> (r: bool)
    ensures
        r == has_suffix(s@, p@),
{
    let sc = chars_of(s);
    let pc = chars_of(p);
    if pc.len() > sc.len() {
        return false;
    }
    let at: usize = sc.len() - pc.len();
    let r = matches_at(&sc, at, &pc);
    proof {
        assert(sc@.skip(at as int).take(pc@.len() as int) =~= sc@.skip(at as int));
    }
    r
}

/// `str::contains` for a string pattern.
pub fn contains(s: &str, p: &str) -> (r: bool)
    ensures
        r == has_infix(s@, p@),
{
    let sc = chars_of(s);
    let pc = chars_of(p);
    let mut k: usize = 0;
    loop
        invariant
            k <= sc@.len(),
            sc@ == s@,
            pc@ == p@,
            forall|j: int| #![trigger sc@.skip(j)] 0 <= j < k ==> !has_prefix(sc@.skip(j), pc@),
        decreases sc@.len() - k,
    {
        if matches_at(&sc, k, &pc) {
            assert(has_prefix(s@.skip(k as int), p@));
            return true;
        }
        if k == sc.len() {
            return false;
        }
        k = k + 1;
    }
}

/// Whether `c` occurs in `s`.
pub fn contains_char(s: &str, c: char) -> (r: bool)
    ensures
        r == s@.contains(c),
{
    let sc = chars_of(s);
    let mut i: usize = 0;
    while i < sc.len()
        invariant
            i <= sc@.len(),
            sc@ == s@,
            forall|j: int| 0 <= j < i ==> sc@[j] != c,
        decreases sc@.len() - i,
    {
        if sc[i] == c {
            assert(s@[i as int] == c);
            return true;
        }
        i = i + 1;
    }
    false
}

/// What is left of `s` behind its prefix `p`, as `str::strip_prefix` gives it.
pub open spec fn without_prefix(s: Seq<char>, p: Seq<char>) -> Option<Seq<char>> {
    if has_prefix(s, p) {
        Some(s.skip(p.len() as int))
    } else {
        None
    }
}

/// `str::strip_prefix` for a string pattern.
pub fn strip_prefix(s: &str, p: &str) -> (r: Option<String>)
    ensures
        opt_text(r) == without_prefix(s@, p@),
{
    let sc = chars_of(s);
    let pc = chars_of(p);
    assert(sc@.skip(0) =~= sc@);
    if matches_at(&sc, 0, &pc) {
        let out = string_of(&sc, pc.len(), sc.len());
        assert(out@ =~= s@.skip(p@.len() as int));
        Some(out)
    } else {
        None
    }
}

/// The characters with the Unicode property `White_Space`.
pub open spec fn is_space(c: char) -> bool {
    let u = c as u32;
    ||| 0x9 <= u <= 0xd
    ||| u == 0x20
    ||| u == 0x85
    ||| u == 0xa0
    ||| u == 0x1680
    ||| 0x2000 <= u <= 0x200a
    ||| u == 0x2028
    ||| u == 0x2029
    ||| u == 0x202f
    ||| u == 0x205f
    ||| u == 0x3000
}

/// `char::is_whitespace`.
pub fn char_is_space(c: char) -> (r: bool)
    ensures
        r == is_space(c),
{
    let u: u32 = c as u32;
    (0x9 <= u && u <= 0xd) || u == 0x20 || u == 0x85 || u == 0xa0 || u == 0x1680 || (0x2000 <= u
        && u <= 0x200a) || u == 0x2028 || u == 0x2029 || u == 0x202f || u == 0x205f || u == 0x3000
}

/// `s` without its leading white space.
pub open spec fn trim_start(s: Seq<char>) -> Seq<char>
    decreases s.len(),
{
    if s.len() > 0 && is_space(s[0]) {
        trim_start(s.drop_first())
    } else {
        s
    }
}

/// `s` without its trailing white space.
pub open spec fn trim_end(s: Seq<char>) -> Seq<char>
    decreases s.len(),
{
    if s.len() > 0 && is_space(s.last()) {
        trim_end(s.drop_last())
    } else {
        s
    }
}

/// `s` without white space on either side.
pub open spec fn trimmed(s: Seq<char>) -> Seq<char> {
    trim_end(trim_start(s))
}

/// `str::trim`.
pub fn trim(s: &str) -> (out: String)
    ensures
        out@ == trimmed(s@),
{
    let sc = chars_of(s);
    let mut from: usize = 0;
    assert(sc@.skip(0) =~= sc@);
    while from < sc.len() && char_is_space(sc[from])
        invariant
            from <= sc@.len(),
            trim_start(sc@.skip(from as int)) == trim_start(sc@),
        decreases sc@.len() - from,
    {
        assert(sc@.skip(from as int).drop_first() =~= sc@.skip(from + 1));
        from = from + 1;
    }
    let mut to: usize = sc.len();
    let ghost start = sc@.skip(from as int);
    assert(trim_start(sc@) == start);
    assert(sc@.subrange(from as int, to as int) =~= start);
    while to > from && char_is_space(sc[to - 1])
        invariant
            from <= to <= sc@.len(),
            trim_end(sc@.subrange(from as int, to as int)) == trim_end(start),
        decreases to,
    {
        assert(sc@.subrange(from as int, to as int).drop_last() =~= sc@.subrange(
            from as int,
            to - 1,
        ));
        to = to - 1;
    }
    string_of(&sc, from, to)
}

/// Which characters divide a text into pieces.
#[derive(Clone, Copy)]
pub enum Divider {
    /// One particular character.
    Char(char),
    /// White space.
    Space,
    /// A comma or white space.
    CommaOrSpace,
}

/// Whether `c` divides pieces under `d`.
pub open spec fn divides(d: Divider, c: char) -> bool {
    match d {
        Divider::Char(x) => c == x,
        Divider::Space => is_space(c),
        Divider::CommaOrSpace => c == ',' || is_space(c),
    }
}

/// Whether `c` divides pieces under `d`.
pub fn is_divider(d: Divider, c: char) -> (r: bool)
    ensures
        r == divides(d, c),
{
    match d {
        Divider::Char(x) => c == x,
        Divider::Space => char_is_space(c),
        Divider::CommaOrSpace => c == ',' || char_is_space(c),
    }
}

/// The pieces of `s` between its dividers, the empty ones included: a divider
/// opens a new piece, any other character extends the last one.
pub open spec fn pieces(s: Seq<char>, d: Divider) -> Seq<Seq<char>>
    decreases s.len(),
{
    if s.len() == 0 {
        seq![Seq::empty()]
    } else {
        let before = pieces(s.drop_last(), d);
        if divides(d, s.last()) {
            before.push(Seq::empty())
        } else {
            before.drop_last().push(before.last().push(s.last()))
        }
    }
}

/// Every text has at least one piece.
pub proof fn pieces_nonempty(s: Seq<char>, d: Divider)
    ensures
        pieces(s, d).len() >= 1,
    decreases s.len(),
{
    if s.len() > 0 {
        pieces_nonempty(s.drop_last(), d);
    }
}

/// `str::split`.
pub fn split(s: &str, d: Divider) -> (out: Vec<String>)
    ensures
        texts(out@) == pieces(s@, d),
{
    let sc = chars_of(s);
    let mut out: Vec<String> = Vec::new();
    let mut from: usize = 0;
    let mut i: usize = 0;
    proof {
        assert(sc@.take(0) =~= Seq::empty());
        assert(texts(out@).push(sc@.subrange(0, 0)) =~= seq![Seq::<char>::empty()]);
    }
    while i < sc.len()
        invariant
            from <= i <= sc@.len(),
            texts(out@).push(sc@.subrange(from as int, i as int)) == pieces(sc@.take(i as int), d),
        decreases sc@.len() - i,
    {
        let ghost before = pieces(sc@.take(i as int), d);
        assert(sc@.take(i + 1).drop_last() =~= sc@.take(i as int));
        assert(sc@.take(i + 1).last() == sc@[i as int]);
        assert(before.drop_last() =~= texts(out@));
        assert(before.last() == sc@.subrange(from as int, i as int));
        if is_divider(d, sc[i]) {
            let ghost prior = out@;
            let piece = string_of(&sc, from, i);
            out.push(piece);
            from = i + 1;
            proof {
                assert(texts(out@) =~= texts(prior).push(piece@));
                assert(texts(out@) =~= before);
                assert(sc@.subrange(from as int, i + 1) =~= Seq::<char>::empty());
            }
        } else {
            assert(sc@.subrange(from as int, i as int).push(sc@[i as int]) =~= sc@.subrange(
                from as int,
                i + 1,
            ));
        }
        i = i + 1;
    }
    let ghost prior = out@;
    let piece = string_of(&sc, from, i);
    out.push(piece);
    proof {
        assert(texts(out@) =~= texts(prior).push(piece@));
        assert(sc@.take(i as int) =~= s@);
    }
    out
}

/// The pieces that are not empty, in order.
pub open spec fn nonempty(v: Seq<Seq<char>>) -> Seq<Seq<char>>
    decreases v.len(),
{
    if v.len() == 0 {
        Seq::empty()
    } else {
        let before = nonempty(v.drop_last());
        if v.last().len() == 0 {
            before
        } else {
            before.push(v.last())
        }
    }
}

/// The words of `s`: its pieces under `d` without the empty ones.
pub open spec fn words(s: Seq<char>, d: Divider) -> Seq<Seq<char>> {
    nonempty(pieces(s, d))
}

/// `str::split_whitespace`, for any divider.
pub fn split_words(s: &str, d: Divider) -> (out: Vec<String>)
    ensures
        texts(out@) == words(s@, d),
{
    let all = split(s, d);
    let mut out: Vec<String> = Vec::new();
    let mut i: usize = 0;
    assert(texts(all@).take(0) =~= Seq::empty());
    assert(texts(out@) =~= Seq::empty());
    while i < all.len()
        invariant
            i <= all@.len(),
            texts(out@) == nonempty(texts(all@).take(i as int)),
        decreases all@.len() - i,
    {
        assert(texts(all@).take(i + 1).drop_last() =~= texts(all@).take(i as int));
        assert(texts(all@).take(i + 1).last() == all@[i as int]@);
        if !all[i].as_str().is_empty() {
            let ghost prior = out@;
            out.push(all[i].clone());
            assert(texts(out@) =~= texts(prior).push(all@[i as int]@));
        }
        i = i + 1;
    }
    assert(texts(all@).take(i as int) =~= texts(all@));
    out
}

/// `s` without one trailing carriage return.
pub open spec fn without_return(s: Seq<char>) -> Seq<char> {
    if s.len() > 0 && s.last() == '\r' {
        s.drop_last()
    } else {
        s
    }
}

/// The lines of `s`: each line feed ends one, a carriage return directly before
/// it belongs to the line end, and nothing behind the last line feed is no line.
pub open spec fn lines_of(s: Seq<char>) -> Seq<Seq<char>> {
    let all = pieces(s, Divider::Char('\n'));
    let ended = Seq::new((all.len() - 1) as nat, |i: int| without_return(all[i]));
    if all.last().len() == 0 {
        ended
    } else {
        ended.push(all.last())
    }
}

/// `str::lines`.
pub fn lines(s: &str) -> (out: Vec<String>)
    ensures
        texts(out@) == lines_of(s@),
{
    let all = split(s, Divider::Char('\n'));
    proof {
        pieces_nonempty(s@, Divider::Char('\n'));
    }
    let ghost p = pieces(s@, Divider::Char('\n'));
    assert(all@.len() == texts(all@).len());
    let mut out: Vec<String> = Vec::new();
    let mut i: usize = 0;
    while i < all.len() - 1
        invariant
            i <= all@.len() - 1,
            all@.len() >= 1,
            texts(all@) == p,
            out@.len() == i,
            forall|j: int| 0 <= j < i ==> #[trigger] out@[j]@ == without_return(p[j]),
        decreases all@.len() - i,
    {
        let sc = chars_of(all[i].as_str());
        assert(sc@ == p[i as int]);
        let n: usize = sc.len();
        let to: usize = if n > 0 && sc[n - 1] == '\r' {
            n - 1
        } else {
            n
        };
        let line = string_of(&sc, 0, to);
        assert(line@ =~= without_return(p[i as int]));
        out.push(line);
        i = i + 1;
    }
    assert(all@[i as int]@ == p.last());
    if !all[i].as_str().is_empty() {
        out.push(all[i].clone());
    }
    assert(texts(out@) =~= lines_of(s@));
    out
}

/// The parts of `s` around the first `c`, as `str::split_once` gives them.
pub open spec fn parted(s: Seq<char>, c: char) -> Option<(Seq<char>, Seq<char>)> {
    if s.contains(c) {
        Some((s.take(s.index_of_first(c)->0), s.skip(s.index_of_first(c)->0 + 1)))
    } else {
        None
    }
}

/// `str::split_once` for a character.
pub fn split_once(s: &str, c: char) -> (r: Option<(String, String)>)
    ensures
        match r {
            Some((a, b)) => parted(s@, c) == Some((a@, b@)),
            None => parted(s@, c) is None,
        },
{
    let sc = chars_of(s);
    let mut i: usize = 0;
    while i < sc.len()
        invariant
            i <= sc@.len(),
            sc@ == s@,
            forall|j: int| 0 <= j < i ==> sc@[j] != c,
        decreases sc@.len() - i,
    {
        if sc[i] == c {
            let a = string_of(&sc, 0, i);
            let b = string_of(&sc, i + 1, sc.len());
            proof {
                s@.index_of_first_ensures(c);
                assert(s@[i as int] == c);
                assert(a@ =~= s@.take(i as int));
                assert(b@ =~= s@.skip(i + 1));
            }
            return Some((a, b));
        }
        i = i + 1;
    }
    None
}

/// The message that std gives for bytes that are not UTF-8.
pub uninterp spec fn utf8_error(bytes: Seq<u8>) -> Seq<char>;

/// The text of bytes in which each piece that is not UTF-8 is replaced.
pub uninterp spec fn lossy_text(bytes: Seq<u8>) -> Seq<char>;

/// Reads bytes as UTF-8 with `std::str::from_utf8`, which is documented to
/// succeed exactly on valid UTF-8 and to keep the bytes. The message of its
/// error is named, not described.
#[verifier::external_body]
fn utf8_text(bytes: &[u8]) -> (r: Result<String, String>)
    ensures
        match r {
            Ok(s) => valid_utf8(bytes@) && encode_utf8(s@) == bytes@,
            Err(e) => !valid_utf8(bytes@) && e@ == utf8_error(bytes@),
        },
{
    match std::str::from_utf8(bytes) {
        Ok(s) => Ok(s.to_owned()),
        Err(e) => Err(e.to_string()),
    }
}

/// Reads bytes as UTF-8 with `String::from_utf8_lossy`, which is documented to
/// replace invalid sequences and to keep valid UTF-8 as it is. What it makes of
/// invalid sequences is named, not described.
#[verifier::external_body]
pub(crate) fn utf8_lossy(bytes: &[u8]) -> (s: String)
    ensures
        s@ == lossy_text(bytes@),
        valid_utf8(bytes@) ==> encode_utf8(s@) == bytes@,
{
    String::from_utf8_lossy(bytes).into_owned()
}

/// Reads bytes as UTF-8, or says why they are not.
pub fn read_utf8(bytes: &[u8]) -> (r: Result<String, String>)
    ensures
        match r {
            Ok(s) => valid_utf8(bytes@) && s@ == decode_utf8(bytes@),
            Err(e) => !valid_utf8(bytes@) && e@ == utf8_error(bytes@),
        },
{
    let r = utf8_text(bytes);
    proof {
        if r is Ok {
            encode_utf8_decode_utf8(r->Ok_0@);
        }
    }
    r
}

/// Whether a text stands in a list.
pub fn lists(all: &Vec<String>, s: &str) -> (r: bool)
    ensures
        r == texts(all@).contains(s@),
{
    let mut i: usize = 0;
    while i < all.len()
        invariant
            i <= all@.len(),
            forall|k: int| 0 <= k < i ==> #[trigger] texts(all@)[k] != s@,
        decreases all@.len() - i,
    {
        assert(texts(all@)[i as int] == all@[i as int]@);
        if same(all[i].as_str(), s) {
            return true;
        }
        i = i + 1;
    }
    false
}

/// A copy of a list of texts.
pub fn copy_texts(v: &Vec<String>) -> (out: Vec<String>)
    ensures
        texts(out@) == texts(v@),
{
    let mut out: Vec<String> = Vec::new();
    let mut i: usize = 0;
    while i < v.len()
        invariant
            i <= v@.len(),
            out@.len() == i,
            forall|j: int| 0 <= j < i ==> (#[trigger] out@[j])@ == v@[j]@,
        decreases v@.len() - i,
    {
        out.push(v[i].clone());
        i = i + 1;
    }
    assert(texts(out@) =~= texts(v@));
    out
}

/// Two texts in a row.
pub fn cat2(a: &str, b: &str) -> (out: String)
    ensures
        out@ == a@ + b@,
{
    let mut out = String::new();
    out.append(a);
    out.append(b);
    assert(out@ =~= a@ + b@);
    out
}

/// Three texts in a row.
pub fn cat3(a: &str, b: &str, c: &str) -> (out: String)
    ensures
        out@ == a@ + b@ + c@,
{
    let mut out = cat2(a, b);
    out.append(c);
    out
}

/// Four texts in a row.
pub fn cat4(a: &str, b: &str, c: &str, d: &str) -> (out: String)
    ensures
        out@ == a@ + b@ + c@ + d@,
{
    let mut out = cat3(a, b, c);
    out.append(d);
    out
}

/// Five texts in a row.
pub fn cat5(a: &str, b: &str, c: &str, d: &str, e: &str) -> (out: String)
    ensures
        out@ == a@ + b@ + c@ + d@ + e@,
{
    let mut out = cat4(a, b, c, d);
    out.append(e);
    out
}

/// The first `n` texts with a separator between them.
pub open spec fn joined_by(v: Seq<Seq<char>>, separator: Seq<char>, n: nat) -> Seq<char>
    decreases n,
{
    if n == 0 {
        Seq::empty()
    } else if n == 1 {
        v[0]
    } else {
        joined_by(v, separator, (n - 1) as nat) + separator + v[n - 1]
    }
}

/// Texts with a separator between them.
pub fn join_texts(v: &Vec<String>, separator: &str) -> (out: String)
    ensures
        out@ == joined_by(texts(v@), separator@, v@.len()),
{
    let mut out = String::new();
    let mut i: usize = 0;
    assert(out@ =~= Seq::<char>::empty());
    while i < v.len()
        invariant
            i <= v@.len(),
            out@ == joined_by(texts(v@), separator@, i as nat),
        decreases v@.len() - i,
    {
        assert(texts(v@)[i as int] == v@[i as int]@);
        out = if i == 0 {
            v[i].as_str().to_owned()
        } else {
            cat3(out.as_str(), separator, v[i].as_str())
        };
        i = i + 1;
    }
    out
}

} // verus!
