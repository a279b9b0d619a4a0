use vstd::prelude::*;
use vstd::string::*;
use vstd::utf8::*;

verus! {

broadcast use {
    vstd::utf8::encode_utf8_decode_utf8,
    vstd::utf8::encode_utf8_valid_utf8,
    vstd::string::group_string_axioms,
};

/// `String::push` from std: appends one character to the end of the string.
pub assume_specification[ String::push ](s: &mut String, ch: char)
    ensures
        final(s)@ == old(s)@.push(ch),
;

/// The character that writes the decimal digit `d` (for `d < 10`).
pub open spec fn digit_char(d: nat) -> char {
    if d == 0 {
        '0'
    } else if d == 1 {
        '1'
    } else if d == 2 {
        '2'
    } else if d == 3 {
        '3'
    } else if d == 4 {
        '4'
    } else if d == 5 {
        '5'
    } else if d == 6 {
        '6'
    } else if d == 7 {
        '7'
    } else if d == 8 {
        '8'
    } else {
        '9'
    }
}

/// The decimal notation of `n`, most significant digit first, with no leading zeros
/// (`0` is written as a single `'0'`), as std's `Display` for unsigned integers writes it.
pub open spec fn decimal(n: nat) -> Seq<char>
    decreases n,
{
    if n < 10 {
        seq![digit_char(n)]
    } else {
        decimal(n / 10).push(digit_char(n % 10))
    }
}

/// The value of a decimal digit character (`'0'` is 0, …, `'9'` is 9), by its code point.
pub open spec fn digit_value(c: char) -> int {
    (c as u32) - 48
}

/// The number that a string of decimal digits denotes, most significant digit first.
pub open spec fn decimal_value(s: Seq<char>) -> int
    decreases s.len(),
{
    if s.len() == 0 {
        0
    } else {
        decimal_value(s.drop_last()) * 10 + digit_value(s.last())
    }
}

proof fn lemma_digit_char_value(d: nat)
    requires
        d < 10,
    ensures
        digit_char(d) as u32 == 48 + d,
{
}

/// The decimal notation of `n` reads back as `n`: it is a non-empty string of the digits `0`
/// to `9` whose value is `n`, and it starts with `0` only when it is `0` itself.
pub proof fn decimal_reads_back(n: nat)
    ensures
        decimal(n).len() > 0,
        forall|i: int| 0 <= i < decimal(n).len() ==> 48 <= #[trigger] (decimal(n)[i] as u32) <= 57,
        decimal_value(decimal(n)) == n,
        decimal(n).len() > 1 ==> decimal(n)[0] != '0',
        n > 0 ==> decimal(n)[0] != '0',
    decreases n,
{
    if n < 10 {
        lemma_digit_char_value(n);
        let d = decimal(n);
        assert(d.drop_last() =~= Seq::<char>::empty());
        assert(decimal_value(Seq::<char>::empty()) == 0);
        assert(decimal_value(d) == decimal_value(d.drop_last()) * 10 + digit_value(d.last()));
        assert(digit_value(d.last()) == n);
    } else {
        let q: nat = n / 10;
        let r: nat = n % 10;
        decimal_reads_back(q);
        lemma_digit_char_value(r);
        let d = decimal(n);
        assert(d == decimal(q).push(digit_char(r)));
        assert(d.drop_last() =~= decimal(q));
        assert(q * 10 + r == n);
        assert(decimal_value(d) == decimal_value(d.drop_last()) * 10 + digit_value(d.last()));
        assert(digit_value(d.last()) == r);
        assert forall|i: int| 0 <= i < d.len() implies 48 <= #[trigger] (d[i] as u32) <= 57 by {
            if i < d.len() - 1 {
                assert(d[i] == decimal(q)[i]);
            }
        }
        assert(d[0] == decimal(q)[0]);
    }
}

/// The decimal notation of a signed integer: a `'-'` before the digits of a negative number.
pub open spec fn signed_decimal(x: int) -> Seq<char> {
    if x < 0 {
        seq!['-'] + decimal((-x) as nat)
    } else {
        decimal(x as nat)
    }
}

fn digit(d: u64) -> (c: char)
    requires
        d < 10,
    ensures
        c == digit_char(d as nat),
{
    if d == 0 {
        '0'
    } else if d == 1 {
        '1'
    } else if d == 2 {
        '2'
    } else if d == 3 {
        '3'
    } else if d == 4 {
        '4'
    } else if d == 5 {
        '5'
    } else if d == 6 {
        '6'
    } else if d == 7 {
        '7'
    } else if d == 8 {
        '8'
    } else {
        '9'
    }
}

/// Appends the decimal notation of `n` to `out`.
pub fn push_decimal(out: &mut String, n: u64)
    ensures
        final(out)@ == old(out)@ + decimal(n as nat),
    decreases n,
{
    if n >= 10 {
        push_decimal(out, n / 10);
    }
    out.push(digit(n % 10));
    assert(out@ =~= old(out)@ + decimal(n as nat)) by {
        if n >= 10 {
            assert(decimal(n as nat) == decimal((n / 10) as nat).push(digit_char((n % 10) as nat)));
        }
    }
}

/// The decimal notation of `n` (what `n.to_string()` gives for an unsigned integer).
pub fn decimal_text(n: u64) -> (s: String)
    ensures
        s@ == decimal(n as nat),
{
    let mut s = String::new();
    push_decimal(&mut s, n);
    assert(s@ =~= decimal(n as nat));
    s
}

/// The decimal notation of a signed integer (what `x.to_string()` gives).
pub fn signed_decimal_text(x: i64) -> (s: String)
    ensures
        s@ == signed_decimal(x as int),
{
    let mut s = String::new();
    if x < 0 {
        s.push('-');
        let magnitude: u64 = (-(x as i128)) as u64;
        push_decimal(&mut s, magnitude);
    } else {
        push_decimal(&mut s, x as u64);
    }
    assert(s@ =~= signed_decimal(x as int));
    s
}

/// The leading `n` bytes of `s`, as the slice `&s[..n]` gives them.
/// The cut must fall on a character boundary inside `s` (the slice panics otherwise).
pub fn byte_prefix(s: &str, n: usize) -> (r: &str)
    requires
        n <= s.spec_bytes().len(),
        is_char_boundary(s.spec_bytes(), n as int),
    ensures
        r.spec_bytes() == s.spec_bytes().subrange(0, n as int),
        r@ == decode_utf8(s.spec_bytes().subrange(0, n as int)),
{
    let (head, _tail) = s.split_at(n);
    assert(decode_utf8(encode_utf8(head@)) == head@);
    head
}

/// Whether `&s[..n]` is a valid slice of the text `s`: `n` is within its UTF-8 bytes
/// and falls on a character boundary.
pub open spec fn cuts_at(s: Seq<char>, n: nat) -> bool {
    &&& n <= encode_utf8(s).len()
    &&& is_char_boundary(encode_utf8(s), n as int)
}

/// The characters that the leading `n` UTF-8 bytes of `s` encode.
pub open spec fn byte_head(s: Seq<char>, n: nat) -> Seq<char> {
    decode_utf8(encode_utf8(s).subrange(0, n as int))
}

/// `s[..n].to_string()`: the leading `n` bytes of `s` as an owned string.
pub fn leading_text(s: &str, n: usize) -> (r: String)
    requires
        cuts_at(s@, n as nat),
    ensures
        r@ == byte_head(s@, n as nat),
{
    String::from_str(byte_prefix(s, n))
}

/// The ellipsis character `\u{2026}` that marks a shortened path.
pub open spec fn ellipsis() -> char {
    '\u{2026}'
}

/// A path cut to at most `max_len` characters, keeping its tail: a path of at most
/// `max_len` characters is kept whole; a longer one becomes an ellipsis followed by its last
/// `max_len - 1` characters, or nothing at all when `max_len` is 0.
pub open spec fn shortened_path(path: Seq<char>, max_len: nat) -> Seq<char> {
    if path.len() <= max_len {
        path
    } else if max_len == 0 {
        Seq::empty()
    } else {
        seq![ellipsis()] + path.subrange(path.len() - (max_len - 1), path.len() as int)
    }
}

/// Truncate a file path to at most `max_len` characters, keeping the tail.
pub fn shorten_path(path: &str, max_len: usize) -> (r: String)
    ensures
        r@ == shortened_path(path@, max_len as nat),
{
    let chars = chars_of(path);
    let n: usize = chars.len();
    if n <= max_len {
        String::from_str(path)
    } else if max_len == 0 {
        String::new()
    } else {
        let tail = string_of(&chars, n - (max_len - 1), n);
        let mut r = String::new();
        r.push('\u{2026}');
        r.append(tail.as_str());
        assert(r@ =~= shortened_path(path@, max_len as nat));
        r
    }
}

/// A shortened path keeps to its bound and keeps the path's tail: it is at most `max_len`
/// characters long; a path that fits is kept as it is; a longer one fills the bound exactly,
/// with an ellipsis followed by the path's last `max_len - 1` characters.
pub proof fn shortened_path_fits_and_keeps_tail(path: Seq<char>, max_len: nat)
    ensures
        shortened_path(path, max_len).len() <= max_len,
        path.len() <= max_len ==> shortened_path(path, max_len) == path,
        path.len() > max_len ==> shortened_path(path, max_len).len() == max_len,
        path.len() > max_len > 0 ==> {
            let r = shortened_path(path, max_len);
            &&& r[0] == ellipsis()
            &&& r.drop_first() == path.subrange(path.len() - r.drop_first().len(), path.len() as int)
        },
{
    if path.len() > max_len > 0 {
        let r = shortened_path(path, max_len);
        assert(r.drop_first() =~= path.subrange(path.len() - (max_len - 1), path.len() as int));
    }
}

/// Unicode's `White_Space` property, which std's `char::is_whitespace` and `str::trim` use.
pub open spec fn is_white_space(c: char) -> bool {
    let u: u32 = c as u32;
    ||| 0x9 <= u <= 0xD
    ||| u == 0x20
    ||| u == 0x85
    ||| u == 0xA0
    ||| u == 0x1680
    ||| 0x2000 <= u <= 0x200A
    ||| u == 0x2028
    ||| u == 0x2029
    ||| u == 0x202F
    ||| u == 0x205F
    ||| u == 0x3000
}

/// Whether `c` is Unicode white space.
pub fn white_space(c: char) -> (b: bool)
    ensures
        b == is_white_space(c),
{
    let u: u32 = c as u32;
    (0x9 <= u && u <= 0xD) || u == 0x20 || u == 0x85 || u == 0xA0 || u == 0x1680 || (0x2000 <= u
        && u <= 0x200A) || u == 0x2028 || u == 0x2029 || u == 0x202F || u == 0x205F || u == 0x3000
}

/// `s` without its leading white space.
pub open spec fn trim_start(s: Seq<char>) -> Seq<char>
    decreases s.len(),
{
    if s.len() > 0 && is_white_space(s[0]) {
        trim_start(s.drop_first())
    } else {
        s
    }
}

/// `s` without its trailing white space.
pub open spec fn trim_end(s: Seq<char>) -> Seq<char>
    decreases s.len(),
{
    if s.len() > 0 && is_white_space(s.last()) {
        trim_end(s.drop_last())
    } else {
        s
    }
}

/// `s` without leading and trailing white space, as std's `str::trim` gives it.
pub open spec fn trim(s: Seq<char>) -> Seq<char> {
    trim_end(trim_start(s))
}

/// The pieces of `s` between commas, as std's `str::split(',')` gives them: one more
/// piece than there are commas, empty pieces included.
pub open spec fn comma_pieces(s: Seq<char>) -> Seq<Seq<char>>
    decreases s.len(),
{
    if s.len() == 0 {
        seq![Seq::<char>::empty()]
    } else {
        let before = comma_pieces(s.drop_last());
        if s.last() == ',' {
            before.push(Seq::<char>::empty())
        } else {
            before.update(before.len() - 1, before.last().push(s.last()))
        }
    }
}

/// The trimmed pieces that are not empty once trimmed, in order.
pub open spec fn nonblank_trimmed(pieces: Seq<Seq<char>>) -> Seq<Seq<char>>
    decreases pieces.len(),
{
    if pieces.len() == 0 {
        Seq::empty()
    } else {
        let before = nonblank_trimmed(pieces.drop_last());
        let t = trim(pieces.last());
        if t.len() > 0 {
            before.push(t)
        } else {
            before
        }
    }
}

/// A comma-separated list read as tags: split on commas, each piece trimmed, empty
/// pieces dropped.
pub open spec fn tag_list(s: Seq<char>) -> Seq<Seq<char>> {
    nonblank_trimmed(comma_pieces(s))
}

proof fn lemma_comma_pieces_nonempty(s: Seq<char>)
    ensures
        comma_pieces(s).len() >= 1,
    decreases s.len(),
{
    if s.len() > 0 {
        lemma_comma_pieces_nonempty(s.drop_last());
    }
}

/// Whether `s` holds no comma.
pub open spec fn no_comma(s: Seq<char>) -> bool {
    forall|i: int| 0 <= i < s.len() ==> s[i] != ','
}

/// Whether `t` is a tag as tag lists hold them: not empty, without a comma, and with no
/// white space at either end.
pub open spec fn is_clean_tag(t: Seq<char>) -> bool {
    &&& t.len() > 0
    &&& no_comma(t)
    &&& !is_white_space(t[0])
    &&& !is_white_space(t.last())
}

/// Whether every tag in `tags` is clean.
pub open spec fn all_clean(tags: Seq<Seq<char>>) -> bool {
    forall|i: int| 0 <= i < tags.len() ==> is_clean_tag(#[trigger] tags[i])
}

proof fn lemma_trim_start_shape(s: Seq<char>)
    ensures
        trim_start(s).len() <= s.len(),
        trim_start(s) == s.subrange(s.len() - trim_start(s).len(), s.len() as int),
        trim_start(s).len() > 0 ==> !is_white_space(trim_start(s)[0]),
    decreases s.len(),
{
    if s.len() > 0 && is_white_space(s[0]) {
        lemma_trim_start_shape(s.drop_first());
        let t = trim_start(s.drop_first());
        assert(s.drop_first().subrange(s.drop_first().len() - t.len(), s.drop_first().len() as int)
            =~= s.subrange(s.len() - t.len(), s.len() as int));
    } else {
        assert(s.subrange(0, s.len() as int) =~= s);
    }
}

proof fn lemma_trim_end_shape(s: Seq<char>)
    ensures
        trim_end(s).len() <= s.len(),
        trim_end(s) == s.subrange(0, trim_end(s).len() as int),
        trim_end(s).len() > 0 ==> !is_white_space(trim_end(s).last()),
    decreases s.len(),
{
    if s.len() > 0 && is_white_space(s.last()) {
        lemma_trim_end_shape(s.drop_last());
        let t = trim_end(s.drop_last());
        assert(s.drop_last().subrange(0, t.len() as int) =~= s.subrange(0, t.len() as int));
    } else {
        assert(s.subrange(0, s.len() as int) =~= s);
    }
}

/// A trimmed piece without commas that is not empty is a clean tag.
proof fn lemma_trim_is_clean(p: Seq<char>)
    requires
        no_comma(p),
        trim(p).len() > 0,
    ensures
        is_clean_tag(trim(p)),
{
    let u = trim_start(p);
    let t = trim_end(u);
    lemma_trim_start_shape(p);
    lemma_trim_end_shape(u);
    let k: int = p.len() - u.len();
    assert forall|i: int| 0 <= i < t.len() implies t[i] != ',' by {
        assert(t[i] == u[i]);
        assert(u[i] == p[k + i]);
    }
    assert(t[0] == u[0]);
}

proof fn lemma_comma_pieces_no_comma(s: Seq<char>)
    ensures
        forall|i: int| 0 <= i < comma_pieces(s).len() ==> no_comma(#[trigger] comma_pieces(s)[i]),
    decreases s.len(),
{
    if s.len() > 0 {
        lemma_comma_pieces_no_comma(s.drop_last());
        lemma_comma_pieces_nonempty(s.drop_last());
        let before = comma_pieces(s.drop_last());
        if s.last() != ',' {
            let grown = before.last().push(s.last());
            assert(no_comma(before[before.len() - 1]));
            assert(no_comma(grown));
        }
    }
}

proof fn lemma_nonblank_trimmed_clean(pieces: Seq<Seq<char>>)
    requires
        forall|i: int| 0 <= i < pieces.len() ==> no_comma(#[trigger] pieces[i]),
    ensures
        all_clean(nonblank_trimmed(pieces)),
    decreases pieces.len(),
{
    if pieces.len() > 0 {
        lemma_nonblank_trimmed_clean(pieces.drop_last());
        let t = trim(pieces.last());
        if t.len() > 0 {
            assert(no_comma(pieces[pieces.len() - 1]));
            lemma_trim_is_clean(pieces.last());
        }
    }
}

/// Every tag read from a list is clean: not empty, without a comma, and with no white
/// space at either end.
pub proof fn tag_list_is_clean(s: Seq<char>)
    ensures
        all_clean(tag_list(s)),
{
    lemma_comma_pieces_no_comma(s);
    lemma_nonblank_trimmed_clean(comma_pieces(s));
}

proof fn lemma_pieces_of_plain_tail(a: Seq<char>, b: Seq<char>)
    requires
        no_comma(b),
    ensures
        comma_pieces(a + b) == comma_pieces(a).update(
            comma_pieces(a).len() - 1,
            comma_pieces(a).last() + b,
        ),
    decreases b.len(),
{
    lemma_comma_pieces_nonempty(a);
    let p = comma_pieces(a);
    if b.len() == 0 {
        assert(a + b =~= a);
        assert(p.last() + b =~= p.last());
        assert(p.update(p.len() - 1, p.last() + b) =~= p);
    } else {
        let b0 = b.drop_last();
        lemma_pieces_of_plain_tail(a, b0);
        assert((a + b).drop_last() =~= a + b0);
        assert(b[b.len() - 1] != ',');
        assert((p.last() + b0).push(b.last()) =~= p.last() + b);
        assert(comma_pieces(a + b) =~= p.update(p.len() - 1, p.last() + b));
    }
}

proof fn lemma_trim_clean(t: Seq<char>)
    requires
        is_clean_tag(t),
    ensures
        trim(t) == t,
        trim(seq![' '] + t) == t,
{
    assert((seq![' '] + t).drop_first() =~= t);
    assert(is_white_space(' '));
}

proof fn lemma_joined_pieces(tags: Seq<Seq<char>>)
    requires
        tags.len() >= 1,
        all_clean(tags),
    ensures
        nonblank_trimmed(comma_pieces(joined(tags, ", "@))) == tags,
        comma_pieces(joined(tags, ", "@)).len() == tags.len(),
    decreases tags.len(),
{
    reveal_strlit(", ");
    if tags.len() == 1 {
        let t = tags[0];
        assert(is_clean_tag(tags[0]));
        lemma_trim_clean(t);
        lemma_pieces_of_plain_tail(Seq::<char>::empty(), t);
        assert(Seq::<char>::empty() + t =~= t);
        assert(seq![Seq::<char>::empty()].update(0, Seq::<char>::empty() + t) =~= seq![t]);
        assert(seq![t].drop_last() =~= Seq::<Seq<char>>::empty());
        assert(nonblank_trimmed(Seq::<Seq<char>>::empty()) == Seq::<Seq<char>>::empty());
        assert(trim(seq![t].last()) == t);
        assert(nonblank_trimmed(seq![t]) == Seq::<Seq<char>>::empty().push(t));
        assert(nonblank_trimmed(seq![t]) =~= seq![t]);
        assert(tags =~= seq![t]);
    } else {
        let front = tags.drop_last();
        let t = tags.last();
        assert(all_clean(front)) by {
            assert forall|i: int| 0 <= i < front.len() implies is_clean_tag(#[trigger] front[i]) by {
                assert(front[i] == tags[i]);
            }
        }
        assert(is_clean_tag(tags[tags.len() - 1]));
        lemma_joined_pieces(front);
        let j = joined(front, ", "@);
        let p = comma_pieces(j);
        let spaced = seq![' '] + t;
        assert(joined(tags, ", "@) == j + ", "@ + t);
        assert(j + ", "@ + t =~= j.push(',') + spaced);
        assert(j.push(',').drop_last() =~= j);
        assert(comma_pieces(j.push(',')) == p.push(Seq::<char>::empty()));
        assert(no_comma(spaced)) by {
            assert forall|i: int| 0 <= i < spaced.len() implies spaced[i] != ',' by {
                if i > 0 {
                    assert(spaced[i] == t[i - 1]);
                }
            }
        }
        lemma_pieces_of_plain_tail(j.push(','), spaced);
        let q = p.push(Seq::<char>::empty());
        assert(Seq::<char>::empty() + spaced =~= spaced);
        assert(q.update(q.len() - 1, q.last() + spaced) =~= p.push(spaced));
        lemma_trim_clean(t);
        assert(p.push(spaced).drop_last() =~= p);
        assert(front.push(t) =~= tags);
    }
}

/// Reading back a list of clean tags written with `", "` between them gives the same tags:
/// what the marketplace shows as a template's tags can be given again as its tags.
pub proof fn joined_tags_read_back(tags: Seq<Seq<char>>)
    requires
        all_clean(tags),
    ensures
        tag_list(joined(tags, ", "@)) == tags,
{
    if tags.len() == 0 {
        let p = seq![Seq::<char>::empty()];
        assert(comma_pieces(Seq::<char>::empty()) == p);
        assert(p.drop_last() =~= Seq::<Seq<char>>::empty());
        assert(trim(Seq::<char>::empty()) =~= Seq::<char>::empty());
        assert(joined(tags, ", "@) == Seq::<char>::empty());
        assert(nonblank_trimmed(Seq::<Seq<char>>::empty()) == Seq::<Seq<char>>::empty());
        assert(nonblank_trimmed(p) == Seq::<Seq<char>>::empty());
        assert(tag_list(joined(tags, ", "@)) =~= tags);
    } else {
        lemma_joined_pieces(tags);
    }
}

/// The characters of `s`, in order.
pub fn chars_of(s: &str) -> (out: Vec<char>)
    ensures
        out@ == s@,
{
    let mut out: Vec<char> = Vec::new();
    for c in it: s.chars()
        invariant
            out@ == it.seq().take(it.index() as int),
    {
        out.push(c);
    }
    out
}

/// The characters `v[lo..hi]` as a `String`.
fn string_of(v: &Vec<char>, lo: usize, hi: usize) -> (s: String)
    requires
        lo <= hi <= v.len(),
    ensures
        s@ == v@.subrange(lo as int, hi as int),
{
    let mut s = String::new();
    let mut k: usize = lo;
    while k < hi
        invariant
            lo <= k <= hi <= v.len(),
            s@ == v@.subrange(lo as int, k as int),
        decreases hi - k,
    {
        s.push(v[k]);
        k = k + 1;
        assert(s@ =~= v@.subrange(lo as int, k as int));
    }
    s
}

/// The characters of `v` with leading and trailing white space removed.
pub fn trimmed(v: &Vec<char>) -> (s: String)
    ensures
        s@ == trim(v@),
{
    let n: usize = v.len();
    let mut i: usize = 0;
    assert(v@.subrange(0, n as int) =~= v@);
    while i < n && white_space(v[i])
        invariant
            i <= n == v.len(),
            trim_start(v@) == trim_start(v@.subrange(i as int, n as int)),
        decreases n - i,
    {
        assert(v@.subrange(i as int, n as int).drop_first() =~= v@.subrange(i + 1, n as int));
        i = i + 1;
    }
    let mut j: usize = n;
    while j > i && white_space(v[j - 1])
        invariant
            i <= j <= n == v.len(),
            trim_start(v@) == v@.subrange(i as int, n as int),
            trim(v@) == trim_end(v@.subrange(i as int, j as int)),
        decreases j - i,
    {
        assert(v@.subrange(i as int, j as int).drop_last() =~= v@.subrange(i as int, j - 1));
        j = j - 1;
    }
    string_of(v, i, j)
}

/// Reads a comma-separated list as tags, as
/// `t.split(',').map(|s| s.trim().to_string()).filter(|s| !s.is_empty())` does.
pub fn split_tags(t: &str) -> (tags: Vec<String>)
    ensures
        tags.deep_view() == tag_list(t@),
{
    let chars = chars_of(t);
    let n: usize = chars.len();
    let mut tags: Vec<String> = Vec::new();
    let mut piece: Vec<char> = Vec::new();
    let mut i: usize = 0;
    proof {
        assert(chars@.take(0) =~= Seq::<char>::empty());
        assert(tags.deep_view() =~= Seq::<Seq<char>>::empty());
        assert(piece@ =~= Seq::<char>::empty());
    }
    while i < n
        invariant
            i <= n == chars.len(),
            chars@ == t@,
            piece@ == comma_pieces(chars@.take(i as int)).last(),
            tags.deep_view() == nonblank_trimmed(comma_pieces(chars@.take(i as int)).drop_last()),
        decreases n - i,
    {
        let ghost pieces = comma_pieces(chars@.take(i as int));
        let ghost next = chars@.take(i + 1);
        proof {
            lemma_comma_pieces_nonempty(chars@.take(i as int));
            assert(next.drop_last() =~= chars@.take(i as int));
            assert(pieces =~= pieces.drop_last().push(pieces.last()));
        }
        let c = chars[i];
        if c == ',' {
            let s = trimmed(&piece);
            if !s.as_str().is_empty() {
                let ghost before = tags.deep_view();
                tags.push(s);
                assert(tags.deep_view() =~= before.push(trim(piece@)));
            }
            piece = Vec::new();
            proof {
                assert(comma_pieces(next) == pieces.push(Seq::<char>::empty()));
                assert(comma_pieces(next).drop_last() =~= pieces);
                assert(piece@ =~= Seq::<char>::empty());
            }
        } else {
            piece.push(c);
            proof {
                let upd = pieces.update(pieces.len() - 1, pieces.last().push(c));
                assert(comma_pieces(next) == upd);
                assert(upd.drop_last() =~= pieces.drop_last());
            }
        }
        i = i + 1;
    }
    proof {
        let pieces = comma_pieces(chars@.take(n as int));
        lemma_comma_pieces_nonempty(chars@.take(n as int));
        assert(chars@.take(n as int) =~= t@);
        assert(pieces =~= pieces.drop_last().push(pieces.last()));
    }
    let s = trimmed(&piece);
    if !s.as_str().is_empty() {
        let ghost before = tags.deep_view();
        tags.push(s);
        assert(tags.deep_view() =~= before.push(trim(piece@)));
    }
    tags
}

/// The items written one after another with `sep` between each two, as std's
/// `[String]::join(sep)` gives them.
pub open spec fn joined(items: Seq<Seq<char>>, sep: Seq<char>) -> Seq<char>
    decreases items.len(),
{
    if items.len() == 0 {
        Seq::empty()
    } else if items.len() == 1 {
        items[0]
    } else {
        joined(items.drop_last(), sep) + sep + items.last()
    }
}

/// Joins `items` with `sep` between each two, as `items.join(sep)` does.
pub fn join_with(items: &Vec<String>, sep: &str) -> (s: String)
    ensures
        s@ == joined(items.deep_view(), sep@),
{
    let mut s = String::new();
    let n: usize = items.len();
    let ghost all = items.deep_view();
    let mut i: usize = 0;
    assert(all.take(0) =~= Seq::<Seq<char>>::empty());
    while i < n
        invariant
            i <= n == items.len(),
            all == items.deep_view(),
            s@ == joined(all.take(i as int), sep@),
        decreases n - i,
    {
        if i > 0 {
            s.append(sep);
        }
        s.append(items[i].as_str());
        proof {
            let next = all.take(i + 1);
            assert(next.drop_last() =~= all.take(i as int));
            if i == 0 {
                assert(s@ =~= next[0]);
            } else {
                assert(s@ =~= joined(next.drop_last(), sep@) + sep@ + next.last());
            }
        }
        i = i + 1;
    }
    assert(all.take(n as int) =~= all);
    s
}

} // verus!
