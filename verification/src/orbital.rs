//! The orbital backend of Redox OS: window paths of the display server, and the checks
//! that the backend makes on what its sockets read and write.
use vstd::prelude::*;

use crate::decimal::{
    decimal, is_digit, lemma_decimal, lemma_parse_render_i32, lemma_parse_render_u32,
    parse_i32, parse_i32_spec, parse_u32, parse_u32_spec, push_i32, push_u32, render_i32,
    render_u32,
};
use vstd::string::{StrSliceExecFns, StringSliceAdditionalSpecFns};
use vstd::utf8::valid_utf8;

verus! {

/// The characters of `s`, one by one.
fn chars_of(s: &str) -> (r: Vec<char>)
    ensures
        r@ == s@,
{
    let mut out: Vec<char> = Vec::new();
    for c in it: s.chars()
        invariant
            it.seq() == s@,
            out@ == s@.take(it.index()),
    {
        out.push(c);
        assert(out@ =~= s@.take(it.index() + 1));
    }
    assert(out@ =~= s@);
    out
}

/// The first index at or after `start` where `s` holds a `/`, or the length of `s` if
/// there is none.
pub open spec fn find_slash(s: Seq<char>, start: int) -> int
    decreases s.len() - start,
{
    if start >= s.len() {
        s.len() as int
    } else if s[start] == '/' {
        start
    } else {
        find_slash(s, start + 1)
    }
}

/// The parts of `s[start..]` separated by `/`, at most `n` of them, as `str::splitn`
/// yields them: every part but the last ends at the next `/`, and the last holds the rest.
pub open spec fn splitn_from(s: Seq<char>, start: int, n: nat) -> Seq<Seq<char>>
    decreases n,
{
    if n == 0 {
        seq![]
    } else if n == 1 || find_slash(s, start) >= s.len() {
        seq![s.subrange(start, s.len() as int)]
    } else {
        let e = find_slash(s, start);
        seq![s.subrange(start, e)] + splitn_from(s, e + 1, (n - 1) as nat)
    }
}

proof fn lemma_find_slash_bounds(s: Seq<char>, start: int)
    requires
        0 <= start <= s.len(),
    ensures
        start <= find_slash(s, start) <= s.len(),
        find_slash(s, start) < s.len() ==> s[find_slash(s, start)] == '/',
        forall|j: int| start <= j < find_slash(s, start) ==> s[j] != '/',
    decreases s.len() - start,
{
    if start < s.len() && s[start] != '/' {
        lemma_find_slash_bounds(s, start + 1);
    }
}

proof fn lemma_find_slash_skip(s: Seq<char>, start: int, i: int)
    requires
        0 <= start <= i <= s.len(),
        forall|j: int| start <= j < i ==> s[j] != '/',
    ensures
        find_slash(s, start) == find_slash(s, i),
    decreases i - start,
{
    if start < i {
        lemma_find_slash_skip(s, start + 1, i);
    }
}

/// The first index at or after `start` where `cs` holds a `/`, or its length.
fn next_slash(cs: &Vec<char>, start: usize) -> (r: usize)
    requires
        start <= cs@.len(),
    ensures
        r == find_slash(cs@, start as int),
{
    let mut i = start;
    while i < cs.len() && cs[i] != '/'
        invariant
            start <= i <= cs@.len(),
            find_slash(cs@, start as int) == find_slash(cs@, i as int),
        decreases cs@.len() - i,
    {
        proof {
            lemma_find_slash_skip(cs@, i as int, i + 1);
        }
        i = i + 1;
    }
    i
}

/// The bounds of the parts of `cs` separated by `/`, at most `n` of them, as `splitn`
/// yields them.
fn splitn_bounds(cs: &Vec<char>, n: usize) -> (r: Vec<(usize, usize)>)
    ensures
        r@.len() == splitn_from(cs@, 0, n as nat).len(),
        forall|i: int|
            #![trigger r@[i]]
            0 <= i < r@.len() ==> {
                &&& r@[i].0 <= r@[i].1 <= cs@.len()
                &&& cs@.subrange(r@[i].0 as int, r@[i].1 as int) == splitn_from(cs@, 0, n as nat)[i]
            },
{
    let ghost full = splitn_from(cs@, 0, n as nat);
    let mut r: Vec<(usize, usize)> = Vec::new();
    let mut start: usize = 0;
    let mut k: usize = 0;
    let mut done = n == 0;
    assert(full.skip(0) =~= full);
    while !done
        invariant
            full == splitn_from(cs@, 0, n as nat),
            k <= n,
            start <= cs@.len(),
            r@.len() == k,
            forall|i: int|
                #![trigger r@[i]]
                0 <= i < k ==> {
                    &&& r@[i].0 <= r@[i].1 <= cs@.len()
                    &&& cs@.subrange(r@[i].0 as int, r@[i].1 as int) == full[i]
                },
            !done ==> k < full.len(),
            !done ==> k < n && splitn_from(cs@, start as int, (n - k) as nat) == full.skip(k as int),
            done ==> full.len() == k,
        decreases n - k,
    {
        let ghost rest = splitn_from(cs@, start as int, (n - k) as nat);
        let ghost old_r = r@;
        let e = next_slash(cs, start);
        proof {
            lemma_find_slash_bounds(cs@, start as int);
        }
        let last = k + 1 == n || e == cs.len();
        let part_end = if last {
            cs.len()
        } else {
            e
        };
        r.push((start, part_end));
        proof {
            assert(r@[k as int] == (start, part_end));
            assert(full.skip(k as int)[0] == full[k as int]);
            if last {
                assert(rest =~= seq![cs@.subrange(start as int, cs@.len() as int)]);
                assert(full.len() == k + 1) by {
                    assert(full.skip(k as int).len() == 1);
                }
            } else {
                let tail = splitn_from(cs@, e + 1, (n - k - 1) as nat);
                assert(tail.len() >= 1);
                assert(rest =~= seq![cs@.subrange(start as int, e as int)] + tail);
                assert(full.skip(k + 1) =~= full.skip(k as int).skip(1));
                assert(tail =~= rest.skip(1));
            }
            assert(cs@.subrange(start as int, part_end as int) == full[k as int]);
            assert forall|i: int| 0 <= i < k + 1 implies {
                &&& r@[i].0 <= r@[i].1 <= cs@.len()
                &&& cs@.subrange(r@[i].0 as int, r@[i].1 as int) == full[i]
            } by {
                if i < k {
                    assert(r@[i] == old_r[i]);
                }
            }
        }
        k = k + 1;
        if last {
            done = true;
        } else {
            start = e + 1;
        }
    }
    r
}

/// What a window path says: the window's flags, position, size and title.
pub struct WindowPropertiesView {
    pub flags: Seq<char>,
    pub x: i32,
    pub y: i32,
    pub w: u32,
    pub h: u32,
    pub title: Seq<char>,
}

/// The `i32` that part `i` of `parts` spells, or 0 where the part is missing or does not
/// read as an `i32`.
pub open spec fn part_i32(parts: Seq<Seq<char>>, i: int) -> i32 {
    if i < parts.len() {
        match parse_i32_spec(parts[i]) {
            Some(v) => v,
            None => 0,
        }
    } else {
        0
    }
}

/// The `u32` that part `i` of `parts` spells, or 0 where the part is missing or does not
/// read as a `u32`.
pub open spec fn part_u32(parts: Seq<Seq<char>>, i: int) -> u32 {
    if i < parts.len() {
        match parse_u32_spec(parts[i]) {
            Some(v) => v,
            None => 0,
        }
    } else {
        0
    }
}

/// What the window path `path`, of the form `flags/x/y/w/h/title`, says. The title is the
/// rest of the path after the fifth `/`; a missing part reads as empty text or 0.
pub open spec fn properties_of(path: Seq<char>) -> WindowPropertiesView {
    let parts = splitn_from(path, 0, 6);
    WindowPropertiesView {
        flags: if parts.len() > 0 {
            parts[0]
        } else {
            seq![]
        },
        x: part_i32(parts, 1),
        y: part_i32(parts, 2),
        w: part_u32(parts, 3),
        h: part_u32(parts, 4),
        title: if parts.len() > 5 {
            parts[5]
        } else {
            seq![]
        },
    }
}

/// The `flags/x/y/w/h/title` form of the window properties `p`.
pub open spec fn path_fields(p: WindowPropertiesView) -> Seq<char> {
    p.flags + seq!['/'] + render_i32(p.x) + seq!['/'] + render_i32(p.y) + seq!['/'] + render_u32(
        p.w,
    ) + seq!['/'] + render_u32(p.h) + seq!['/'] + p.title
}

/// The path under which the orbital display server opens a window with the properties
/// `p`.
pub open spec fn display_path(p: WindowPropertiesView) -> Seq<char> {
    "/scheme/orbital/"@ + path_fields(p)
}

/// The properties of an orbital window, as its path states them.
pub struct WindowProperties<'a> {
    pub flags: &'a str,
    pub x: i32,
    pub y: i32,
    pub w: u32,
    pub h: u32,
    pub title: &'a str,
}

impl<'a> View for WindowProperties<'a> {
    type V = WindowPropertiesView;

    open spec fn view(&self) -> WindowPropertiesView {
        WindowPropertiesView {
            flags: self.flags@,
            x: self.x,
            y: self.y,
            w: self.w,
            h: self.h,
            title: self.title@,
        }
    }
}

/// Appends the characters of `s` to `out`.
fn push_chars(out: &mut Vec<char>, s: &str)
    ensures
        final(out)@ == old(out)@ + s@,
{
    let cs = chars_of(s);
    let mut i: usize = 0;
    while i < cs.len()
        invariant
            i <= cs@.len(),
            cs@ == s@,
            out@ == old(out)@ + s@.take(i as int),
        decreases cs@.len() - i,
    {
        out.push(cs[i]);
        assert(out@ =~= old(out)@ + s@.take(i + 1));
        i = i + 1;
    }
    assert(s@.take(i as int) =~= s@);
}

/// Calls `String::from_iter` on the characters `cs`, which gives the text made of exactly
/// those characters, in order.
#[verifier::external_body]
fn string_from_chars(cs: Vec<char>) -> (r: String)
    ensures
        r@ == cs@,
{
    String::from_iter(cs)
}

impl<'a> WindowProperties<'a> {
    /// Reads the window path `path`, of the form `flags/x/y/w/h/title`. A missing part
    /// reads as empty text or 0, and so does a number that does not read.
    pub fn new(path: &'a str) -> (r: Self)
        ensures
            r@ == properties_of(path@),
    {
        let cs = chars_of(path);
        let b = splitn_bounds(&cs, 6);
        proof {
            reveal_strlit("");
        }
        let flags = if b.len() > 0 {
            path.substring_char(b[0].0, b[0].1)
        } else {
            ""
        };
        let x = if b.len() > 1 {
            match parse_i32(&cs, b[1].0, b[1].1) {
                Some(v) => v,
                None => 0,
            }
        } else {
            0
        };
        let y = if b.len() > 2 {
            match parse_i32(&cs, b[2].0, b[2].1) {
                Some(v) => v,
                None => 0,
            }
        } else {
            0
        };
        let w = if b.len() > 3 {
            match parse_u32(&cs, b[3].0, b[3].1) {
                Some(v) => v,
                None => 0,
            }
        } else {
            0
        };
        let h = if b.len() > 4 {
            match parse_u32(&cs, b[4].0, b[4].1) {
                Some(v) => v,
                None => 0,
            }
        } else {
            0
        };
        let title = if b.len() > 5 {
            path.substring_char(b[5].0, b[5].1)
        } else {
            ""
        };
        let r = WindowProperties { flags, x, y, w, h, title };
        assert(r@.flags =~= properties_of(path@).flags);
        assert(r@.title =~= properties_of(path@).title);
        r
    }

    /// The path under which the orbital display server opens a window with these
    /// properties: `/scheme/orbital/flags/x/y/w/h/title`.
    pub fn to_string(&self) -> (r: String)
        ensures
            r@ == display_path(self@),
    {
        let mut out: Vec<char> = Vec::new();
        push_chars(&mut out, "/scheme/orbital/");
        push_chars(&mut out, self.flags);
        out.push('/');
        push_i32(&mut out, self.x);
        out.push('/');
        push_i32(&mut out, self.y);
        out.push('/');
        push_u32(&mut out, self.w);
        out.push('/');
        push_u32(&mut out, self.h);
        out.push('/');
        push_chars(&mut out, self.title);
        assert(out@ =~= display_path(self@));
        string_from_chars(out)
    }
}

/// Whether `q` holds no `/`.
pub open spec fn no_slash(q: Seq<char>) -> bool {
    forall|i: int| 0 <= i < q.len() ==> q[i] != '/'
}

proof fn lemma_find_slash_shift(s: Seq<char>, k: int, start: int)
    requires
        0 <= k <= s.len(),
        0 <= start,
    ensures
        find_slash(s, k + start) == k + find_slash(s.skip(k), start),
    decreases s.len() - k - start,
{
    if k + start < s.len() {
        assert(s.skip(k)[start] == s[k + start]);
        if s[k + start] != '/' {
            lemma_find_slash_shift(s, k, start + 1);
        }
    }
}

proof fn lemma_splitn_shift(s: Seq<char>, k: int, start: int, n: nat)
    requires
        0 <= k <= s.len(),
        0 <= start <= s.len() - k,
    ensures
        splitn_from(s, k + start, n) == splitn_from(s.skip(k), start, n),
    decreases n,
{
    let t = s.skip(k);
    lemma_find_slash_shift(s, k, start);
    lemma_find_slash_bounds(t, start);
    if n == 0 {
    } else if n == 1 || find_slash(t, start) >= t.len() {
        assert(s.subrange(k + start, s.len() as int) =~= t.subrange(start, t.len() as int));
    } else {
        let e = find_slash(t, start);
        assert(s.subrange(k + start, k + e) =~= t.subrange(start, e));
        lemma_splitn_shift(s, k, e + 1, (n - 1) as nat);
    }
}

proof fn lemma_splitn_concat(a: Seq<char>, rest: Seq<char>, n: nat)
    requires
        no_slash(a),
        n >= 2,
    ensures
        splitn_from(a + seq!['/'] + rest, 0, n) == seq![a] + splitn_from(rest, 0, (n - 1) as nat),
{
    let s = a + seq!['/'] + rest;
    assert forall|j: int| 0 <= j < a.len() implies s[j] != '/' by {
        assert(s[j] == a[j]);
    }
    lemma_find_slash_skip(s, 0, a.len() as int);
    assert(s[a.len() as int] == '/');
    assert(find_slash(s, a.len() as int) == a.len());
    assert(s.subrange(0, a.len() as int) =~= a);
    lemma_splitn_shift(s, a.len() + 1int, 0, (n - 1) as nat);
    assert(s.skip(a.len() + 1int) =~= rest);
}

proof fn lemma_render_no_slash(x: i32, w: u32)
    ensures
        no_slash(render_i32(x)),
        no_slash(render_u32(w)),
{
    if x < 0 {
        lemma_decimal((-x) as nat);
        let d = decimal((-x) as nat);
        assert forall|i: int| 0 <= i < render_i32(x).len() implies render_i32(x)[i] != '/' by {
            if i > 0 {
                assert(render_i32(x)[i] == d[i - 1]);
                assert(is_digit(d[i - 1]));
            }
        }
    } else {
        lemma_decimal(x as nat);
        assert forall|i: int| 0 <= i < render_i32(x).len() implies render_i32(x)[i] != '/' by {
            assert(is_digit(render_i32(x)[i]));
        }
    }
    lemma_decimal(w as nat);
    assert forall|i: int| 0 <= i < render_u32(w).len() implies render_u32(w)[i] != '/' by {
        assert(is_digit(render_u32(w)[i]));
    }
}

/// Reading a window path back: for properties whose flags hold no `/`, reading the
/// `flags/x/y/w/h/title` form that `to_string` writes after the `/scheme/orbital/` prefix
/// gives back the same properties, whatever the title holds.
pub proof fn lemma_properties_round_trip(p: WindowPropertiesView)
    requires
        no_slash(p.flags),
    ensures
        properties_of(path_fields(p)) == p,
{
    let sx = render_i32(p.x);
    let sy = render_i32(p.y);
    let sw = render_u32(p.w);
    let sh = render_u32(p.h);
    lemma_render_no_slash(p.x, p.w);
    lemma_render_no_slash(p.y, p.h);
    let r4 = sh + seq!['/'] + p.title;
    let r3 = sw + seq!['/'] + r4;
    let r2 = sy + seq!['/'] + r3;
    let r1 = sx + seq!['/'] + r2;
    let s0 = p.flags + seq!['/'] + r1;
    assert(path_fields(p) =~= s0);
    lemma_splitn_concat(p.flags, r1, 6);
    lemma_splitn_concat(sx, r2, 5);
    lemma_splitn_concat(sy, r3, 4);
    lemma_splitn_concat(sw, r4, 3);
    lemma_splitn_concat(sh, p.title, 2);
    assert(p.title.subrange(0, p.title.len() as int) =~= p.title);
    assert(splitn_from(p.title, 0, 1) =~= seq![p.title]);
    let parts = seq![p.flags, sx, sy, sw, sh, p.title];
    assert(splitn_from(s0, 0, 6) =~= parts);
    lemma_parse_render_i32(p.x);
    lemma_parse_render_i32(p.y);
    lemma_parse_render_u32(p.w);
    lemma_parse_render_u32(p.h);
}

/// The parts `parts` joined with `/` between them.
pub open spec fn join_slash(parts: Seq<Seq<char>>) -> Seq<char>
    decreases parts.len(),
{
    if parts.len() == 0 {
        seq![]
    } else if parts.len() == 1 {
        parts[0]
    } else {
        parts[0] + seq!['/'] + join_slash(parts.skip(1))
    }
}

proof fn lemma_splitn_join(parts: Seq<Seq<char>>, n: nat)
    requires
        1 <= parts.len() <= n,
        forall|i: int| 0 <= i < parts.len() - 1 ==> no_slash(#[trigger] parts[i]),
        parts.len() < n ==> no_slash(parts[parts.len() - 1]),
    ensures
        splitn_from(join_slash(parts), 0, n) == parts,
    decreases parts.len(),
{
    let s = join_slash(parts);
    if parts.len() == 1 {
        if n > 1 {
            lemma_find_slash_skip(s, 0, s.len() as int);
        }
        assert(s.subrange(0, s.len() as int) =~= s);
        assert(splitn_from(s, 0, n) =~= parts);
    } else {
        let rest = parts.skip(1);
        assert forall|i: int| 0 <= i < rest.len() - 1 implies no_slash(#[trigger] rest[i]) by {
            assert(rest[i] == parts[i + 1]);
        }
        assert(rest[rest.len() - 1] == parts[parts.len() - 1]);
        lemma_splitn_join(rest, (n - 1) as nat);
        assert(no_slash(parts[0]));
        lemma_splitn_concat(parts[0], join_slash(rest), n);
        assert(seq![parts[0]] + rest =~= parts);
    }
}

/// Which part of a window path each property is read from: for a path of up to six
/// `/`-separated parts, where only a sixth part may itself hold a `/`, the flags are the
/// first part, x and y the `i32` in the second and third, w and h the `u32` in the fourth
/// and fifth, and the title the sixth, however many parts follow. A missing part reads as
/// 0 or empty text, and so does a number that does not read.
pub proof fn lemma_fields_read_from_parts(parts: Seq<Seq<char>>)
    requires
        1 <= parts.len() <= 6,
        forall|i: int| 0 <= i < parts.len() && i < 5 ==> no_slash(#[trigger] parts[i]),
    ensures
        properties_of(join_slash(parts)).flags == parts[0],
        properties_of(join_slash(parts)).x == if parts.len() > 1 {
            match parse_i32_spec(parts[1]) {
                Some(v) => v,
                None => 0i32,
            }
        } else {
            0i32
        },
        properties_of(join_slash(parts)).y == if parts.len() > 2 {
            match parse_i32_spec(parts[2]) {
                Some(v) => v,
                None => 0i32,
            }
        } else {
            0i32
        },
        properties_of(join_slash(parts)).w == if parts.len() > 3 {
            match parse_u32_spec(parts[3]) {
                Some(v) => v,
                None => 0u32,
            }
        } else {
            0u32
        },
        properties_of(join_slash(parts)).h == if parts.len() > 4 {
            match parse_u32_spec(parts[4]) {
                Some(v) => v,
                None => 0u32,
            }
        } else {
            0u32
        },
        properties_of(join_slash(parts)).title == if parts.len() > 5 {
            parts[5]
        } else {
            seq![]
        },
{
    assert forall|i: int| 0 <= i < parts.len() - 1 implies no_slash(#[trigger] parts[i]) by {
        assert(i < 5);
    }
    lemma_splitn_join(parts, 6);
}

/// What `to_string` writes reads back: for properties whose flags hold no `/`, the
/// display path starts with `/scheme/orbital/`, and what follows reads as the same
/// properties.
pub proof fn lemma_display_path_reads_back(p: WindowPropertiesView)
    requires
        no_slash(p.flags),
    ensures
        display_path(p).len() >= 16,
        display_path(p).take(16) == "/scheme/orbital/"@,
        properties_of(display_path(p).skip(16)) == p,
{
    reveal_strlit("/scheme/orbital/");
    assert(display_path(p).take(16) =~= "/scheme/orbital/"@);
    assert(display_path(p).skip(16) =~= path_fields(p));
    lemma_properties_round_trip(p);
}

/// The error number with which a Redox system call reports an invalid argument.
pub const EINVAL: i32 = 22;

#[verifier::external_type_specification]
#[verifier::external_body]
pub struct ExUtf8Error(core::str::Utf8Error);

/// Calls `core::str::from_utf8`, which succeeds exactly when the bytes are valid UTF-8 and
/// then gives the text that those bytes encode.
#[verifier::external_body]
fn str_from_utf8(v: &[u8]) -> (r: Result<&str, core::str::Utf8Error>)
    ensures
        r is Ok <==> valid_utf8(v@),
        r matches Ok(s) ==> s.spec_bytes() == v@,
{
    core::str::from_utf8(v)
}

/// Judges a transfer on a display server socket: a read or write of a buffer of `len`
/// bytes that moved `count` of them succeeds only when it moved the whole buffer, and
/// otherwise fails with the error number `EINVAL`.
pub fn check_transfer(count: usize, len: usize) -> (r: Result<(), i32>)
    ensures
        r == if count == len {
            Ok::<(), i32>(())
        } else {
            Err(EINVAL)
        },
{
    if count == len {
        Ok(())
    } else {
        Err(EINVAL)
    }
}

/// The path that a socket's path query wrote into the first `count` bytes of `buf`. It
/// must be valid UTF-8; otherwise the query fails with the error number `EINVAL`.
pub fn path_from_buffer<'a>(buf: &'a [u8], count: usize) -> (r: Result<&'a str, i32>)
    requires
        count <= buf@.len(),
    ensures
        r is Ok <==> valid_utf8(buf@.take(count as int)),
        r matches Ok(s) ==> s.spec_bytes() == buf@.take(count as int),
        r is Err ==> r == Err::<&str, i32>(EINVAL),
{
    let bytes = &buf[0..count];
    assert(bytes@ =~= buf@.take(count as int));
    match str_from_utf8(bytes) {
        Ok(s) => Ok(s),
        Err(_) => Err(EINVAL),
    }
}

} // verus!
