//! Output buffers, identifier case conversion and decimal numerals.
use vstd::prelude::*;
use heck::ToKebabCase;
use heck::ToShoutySnakeCase;
use heck::ToSnakeCase;
use wit_bindgen_core::Source;

verus! {

/// `wit_bindgen_core::Source`, a text buffer that re-indents what is pushed
/// into it. Its fields are private; the library reads it through
/// [`source_text`] and [`source_indent`] only.
#[verifier::external_type_specification]
#[verifier::external_body]
pub struct ExSource(wit_bindgen_core::Source);

/// The text that a `Source` holds.
pub uninterp spec fn source_text(s: Source) -> Seq<char>;

/// The indentation depth that a `Source` has reached.
pub uninterp spec fn source_indent(s: Source) -> nat;

/// What `Source::push_str` makes of a buffer with the given text and depth
/// when `piece` is pushed: the new text and the new depth.
pub uninterp spec fn pushed(text: Seq<char>, indent: nat, piece: Seq<char>) -> (Seq<char>, nat);

/// What `str::trim` returns.
pub uninterp spec fn trimmed(s: Seq<char>) -> Seq<char>;

/// What `str::lines` yields, in order.
pub uninterp spec fn lines_of(s: Seq<char>) -> Seq<Seq<char>>;

/// What `heck`'s `to_snake_case` returns.
pub uninterp spec fn snake_case(s: Seq<char>) -> Seq<char>;

/// What `heck`'s `to_shouty_snake_case` returns.
pub uninterp spec fn shouty_snake_case(s: Seq<char>) -> Seq<char>;

/// What `heck`'s `to_kebab_case` returns.
pub uninterp spec fn kebab_case(s: Seq<char>) -> Seq<char>;

/// The state of an output buffer.
pub struct Buf {
    pub text: Seq<char>,
    pub indent: nat,
}

/// A list of strings as a sequence of character sequences.
pub open spec fn strs(v: Seq<String>) -> Seq<Seq<char>> {
    Seq::new(v.len(), |i: int| v[i]@)
}

/// The state of a `Source`.
pub open spec fn buf(s: Source) -> Buf {
    Buf { text: source_text(s), indent: source_indent(s) }
}

/// The empty buffer.
pub open spec fn blank() -> Buf {
    Buf { text: Seq::empty(), indent: 0 }
}

/// The buffer after one piece is pushed.
pub open spec fn push(b: Buf, piece: Seq<char>) -> Buf {
    let r = pushed(b.text, b.indent, piece);
    Buf { text: r.0, indent: r.1 }
}

/// The buffer after `pieces` are pushed one by one, first to last.
pub open spec fn render(b: Buf, pieces: Seq<Seq<char>>) -> Buf
    decreases pieces.len(),
{
    if pieces.len() == 0 {
        b
    } else {
        push(render(b, pieces.drop_last()), pieces.last())
    }
}

/// Pushing one more piece extends the rendered list by it.
pub proof fn render_push(b: Buf, pieces: Seq<Seq<char>>, piece: Seq<char>)
    ensures
        push(render(b, pieces), piece) == render(b, pieces.push(piece)),
{
    assert(pieces.push(piece).drop_last() =~= pieces);
}

/// Rendering two lists in turn is rendering their concatenation.
pub proof fn render_concat(b: Buf, p: Seq<Seq<char>>, q: Seq<Seq<char>>)
    ensures
        render(render(b, p), q) == render(b, p + q),
    decreases q.len(),
{
    if q.len() == 0 {
        assert(p + q =~= p);
    } else {
        render_concat(b, p, q.drop_last());
        assert((p + q).drop_last() =~= p + q.drop_last());
        assert((p + q).last() == q.last());
    }
}

/// Rendering nothing leaves the buffer as it is.
pub broadcast proof fn render_none(b: Buf)
    ensures
        #[trigger] render(b, Seq::empty()) == b,
{
}

/// [`render_push`], applied wherever a list that ends in a pushed piece is
/// rendered.
pub broadcast proof fn render_pushed(b: Buf, pieces: Seq<Seq<char>>, piece: Seq<char>)
    ensures
        #[trigger] render(b, pieces.push(piece)) == push(render(b, pieces), piece),
{
    render_push(b, pieces, piece);
}

/// [`render_concat`], applied wherever a concatenation is rendered.
pub broadcast proof fn render_joined(b: Buf, p: Seq<Seq<char>>, q: Seq<Seq<char>>)
    ensures
        #[trigger] render(b, p + q) == render(render(b, p), q),
{
    render_concat(b, p, q);
}

pub broadcast group group_render {
    render_none,
    render_pushed,
    render_joined,
}

/// Three pieces in a row.
pub open spec fn row3(a: Seq<char>, b: Seq<char>, c: Seq<char>) -> Seq<Seq<char>> {
    seq![a].push(b).push(c)
}

/// Four pieces in a row.
pub open spec fn row4(a: Seq<char>, b: Seq<char>, c: Seq<char>, d: Seq<char>) -> Seq<Seq<char>> {
    seq![a].push(b).push(c).push(d)
}

/// Five pieces in a row.
pub open spec fn row5(a: Seq<char>, b: Seq<char>, c: Seq<char>, d: Seq<char>, e: Seq<char>) -> Seq<
    Seq<char>,
> {
    seq![a].push(b).push(c).push(d).push(e)
}

/// Six pieces in a row.
pub open spec fn row6(
    a: Seq<char>,
    b: Seq<char>,
    c: Seq<char>,
    d: Seq<char>,
    e: Seq<char>,
    f: Seq<char>,
) -> Seq<Seq<char>> {
    seq![a].push(b).push(c).push(d).push(e).push(f)
}

/// Seven pieces in a row.
pub open spec fn row7(
    a: Seq<char>,
    b: Seq<char>,
    c: Seq<char>,
    d: Seq<char>,
    e: Seq<char>,
    f: Seq<char>,
    g: Seq<char>,
) -> Seq<Seq<char>> {
    seq![a].push(b).push(c).push(d).push(e).push(f).push(g)
}

/// The pieces that `arm` gives for 0, 1, and so on below `n`, in a row.
pub open spec fn gather(n: nat, arm: spec_fn(int) -> Seq<Seq<char>>) -> Seq<Seq<char>>
    decreases n,
{
    if n == 0 {
        Seq::empty()
    } else {
        gather((n - 1) as nat, arm) + arm(n - 1)
    }
}

/// `Source::default`: an empty buffer at depth 0.
#[verifier::external_body]
pub(crate) fn source_new() -> (s: Source)
    ensures
        source_text(s) == Seq::<char>::empty(),
        source_indent(s) == 0,
{
    Source::default()
}

/// `Source::push_str`. The buffer's new text and depth are those that
/// [`pushed`] names for its old text and depth and the piece. The depth never
/// exceeds the number of characters held, so its increment cannot overflow.
#[verifier::external_body]
pub(crate) fn source_push(s: &mut Source, piece: &str)
    ensures
        (source_text(*final(s)), source_indent(*final(s))) == pushed(
            source_text(*old(s)),
            source_indent(*old(s)),
            piece@,
        ),
{
    s.push_str(piece)
}

/// `Deref` of a `Source`: the text it holds.
#[verifier::external_body]
pub(crate) fn source_str(s: &Source) -> (r: &str)
    ensures
        r@ == source_text(*s),
{
    s
}

/// `str::trim`.
#[verifier::external_body]
pub(crate) fn trim(s: &str) -> (r: &str)
    ensures
        r@ == trimmed(s@),
{
    s.trim()
}

/// `str::lines`, collected.
#[verifier::external_body]
pub(crate) fn lines(s: &str) -> (r: Vec<String>)
    ensures
        strs(r@) == lines_of(s@),
{
    let mut r = Vec::new();
    for line in s.lines() {
        r.push(line.to_string());
    }
    r
}

/// `heck::ToSnakeCase::to_snake_case` on a string slice.
#[verifier::external_body]
pub(crate) fn snake(s: &str) -> (r: String)
    ensures
        r@ == snake_case(s@),
{
    s.to_snake_case()
}

/// `heck::ToShoutySnakeCase::to_shouty_snake_case` on a string slice.
#[verifier::external_body]
pub(crate) fn shouty_snake(s: &str) -> (r: String)
    ensures
        r@ == shouty_snake_case(s@),
{
    s.to_shouty_snake_case()
}

/// `heck::ToKebabCase::to_kebab_case` on a string slice.
#[verifier::external_body]
pub(crate) fn kebab(s: &str) -> (r: String)
    ensures
        r@ == kebab_case(s@),
{
    s.to_kebab_case()
}

/// Appends a string to a list of strings.
pub(crate) fn push_string(v: &mut Vec<String>, s: String)
    ensures
        strs(final(v)@) == strs(old(v)@).push(s@),
        final(v)@ == old(v)@.push(s),
{
    v.push(s);
    assert(strs(v@) =~= strs(old(v)@).push(s@));
}


/// Appends a list of strings to another.
pub(crate) fn extend_strings(v: &mut Vec<String>, more: Vec<String>)
    ensures
        strs(final(v)@) == strs(old(v)@) + strs(more@),
{
    let mut more = more;
    let ghost all = strs(more@);
    let mut k: usize = 0;
    let n = more.len();
    let mut rest: Vec<String> = Vec::new();
    std::mem::swap(&mut more, &mut rest);
    while k < n
        invariant
            n == rest@.len(),
            k <= n,
            all == strs(rest@),
            strs(v@) == strs(old(v)@) + all.take(k as int),
        decreases n - k,
    {
        let s = rest[k].clone();
        push_string(v, s);
        assert(all.take(k + 1) =~= all.take(k as int).push(all[k as int]));
        assert(strs(old(v)@) + all.take(k + 1) =~= (strs(old(v)@) + all.take(k as int)).push(
            all[k as int],
        ));
        k += 1;
    }
    assert(all.take(n as int) =~= all);
}

/// Two strings in a row.
pub(crate) fn concat2(a: &str, b: &str) -> (r: String)
    ensures
        r@ == a@ + b@,
{
    let mut r = String::from_str(a);
    r.append(b);
    r
}

/// Three strings in a row.
pub(crate) fn concat3(a: &str, b: &str, c: &str) -> (r: String)
    ensures
        r@ == a@ + b@ + c@,
{
    let mut r = String::from_str(a);
    r.append(b);
    r.append(c);
    r
}

/// The numeral of one decimal digit.
pub open spec fn digit(d: nat) -> Seq<char> {
    if d == 0 {
        "0"@
    } else if d == 1 {
        "1"@
    } else if d == 2 {
        "2"@
    } else if d == 3 {
        "3"@
    } else if d == 4 {
        "4"@
    } else if d == 5 {
        "5"@
    } else if d == 6 {
        "6"@
    } else if d == 7 {
        "7"@
    } else if d == 8 {
        "8"@
    } else {
        "9"@
    }
}

/// The decimal numeral of a natural number, without leading zeros.
pub open spec fn decimal(n: nat) -> Seq<char>
    decreases n,
{
    if n < 10 {
        digit(n)
    } else {
        decimal(n / 10) + digit(n % 10)
    }
}

/// The decimal numeral of an integer, with `-` before a negative one.
pub open spec fn signed_decimal(v: int) -> Seq<char> {
    if v < 0 {
        "-"@ + decimal((-v) as nat)
    } else {
        decimal(v as nat)
    }
}

fn digit_str(d: u64) -> (r: &'static str)
    requires
        d < 10,
    ensures
        r@ == digit(d as nat),
{
    if d == 0 {
        "0"
    } else if d == 1 {
        "1"
    } else if d == 2 {
        "2"
    } else if d == 3 {
        "3"
    } else if d == 4 {
        "4"
    } else if d == 5 {
        "5"
    } else if d == 6 {
        "6"
    } else if d == 7 {
        "7"
    } else if d == 8 {
        "8"
    } else {
        "9"
    }
}

/// Writes a number in decimal.
pub(crate) fn decimal_u64(n: u64) -> (r: String)
    ensures
        r@ == decimal(n as nat),
    decreases n,
{
    if n < 10 {
        String::from_str(digit_str(n))
    } else {
        let mut s = decimal_u64(n / 10);
        s.append(digit_str(n % 10));
        s
    }
}

/// Writes an index or a count in decimal.
pub fn decimal_string(n: usize) -> (r: String)
    ensures
        r@ == decimal(n as nat),
{
    decimal_u64(n as u64)
}

/// Writes a signed number in decimal.
pub fn signed_decimal_string(v: i32) -> (r: String)
    ensures
        r@ == signed_decimal(v as int),
{
    if v < 0 {
        let m: u64 = (-(v as i64)) as u64;
        let mut s = String::from_str("-");
        let d = decimal_u64(m);
        s.append(d.as_str());
        s
    } else {
        decimal_u64(v as u64)
    }
}

} // verus!
