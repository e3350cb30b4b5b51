use vstd::prelude::*;

verus! {

/// Relies on `String::push`: appends one character at the end.
pub assume_specification[ String::push ](s: &mut String, ch: char)
    ensures
        final(s)@ == old(s)@.push(ch),
;

/// Whether two strings hold the same characters.
pub fn str_eq(a: &str, b: &str) -> (r: bool)
    ensures
        r == (a@ == b@),
{
    let n = a.unicode_len();
    if n != b.unicode_len() {
        return false;
    }
    let mut i: usize = 0;
    while i < n
        invariant
            n == a@.len() == b@.len(),
            i <= n,
            forall|m: int| 0 <= m < i ==> a@[m] == b@[m],
        decreases n - i,
    {
        if a.get_char(i) != b.get_char(i) {
            return false;
        }
        i = i + 1;
    }
    assert(a@ =~= b@);
    true
}


/// White space as Unicode defines it (the `White_Space` property).
pub open spec fn is_ws(c: char) -> bool {
    let u = c as u32;
    (0x9 <= u <= 0xd) || u == 0x20 || u == 0x85 || u == 0xa0 || u == 0x1680 || (0x2000 <= u
        <= 0x200a) || u == 0x2028 || u == 0x2029 || u == 0x202f || u == 0x205f || u == 0x3000
}

pub fn char_is_ws(c: char) -> (r: bool)
    ensures
        r == is_ws(c),
{
    let u = c as u32;
    (0x9 <= u && u <= 0xd) || u == 0x20 || u == 0x85 || u == 0xa0 || u == 0x1680 || (0x2000 <= u
        && u <= 0x200a) || u == 0x2028 || u == 0x2029 || u == 0x202f || u == 0x205f || u == 0x3000
}

/// `s[a..b]` is `s` without its leading and trailing white space.
pub open spec fn trim_bounds(s: Seq<char>, a: int, b: int) -> bool {
    &&& 0 <= a <= b <= s.len()
    &&& forall|m: int| 0 <= m < a ==> is_ws(#[trigger] s[m])
    &&& forall|m: int| b <= m < s.len() ==> is_ws(#[trigger] s[m])
    &&& a < b ==> !is_ws(s[a]) && !is_ws(s[b - 1])
    &&& a == b ==> a == s.len()
}

/// `s` without leading and trailing white space.
pub open spec fn trim(s: Seq<char>) -> Seq<char> {
    let ab = choose|ab: (int, int)| trim_bounds(s, ab.0, ab.1);
    s.subrange(ab.0, ab.1)
}

proof fn lemma_trim_bounds_unique(s: Seq<char>, a: int, b: int, c: int, d: int)
    requires
        trim_bounds(s, a, b),
        trim_bounds(s, c, d),
    ensures
        a == c && b == d,
{
    if a < b {
        assert(!is_ws(s[a]));
        if c < d {
            assert(!is_ws(s[c]));
            assert(!is_ws(s[d - 1]));
            assert(!is_ws(s[b - 1]));
        }
    }
}

pub proof fn lemma_trim(s: Seq<char>, a: int, b: int)
    requires
        trim_bounds(s, a, b),
    ensures
        trim(s) == s.subrange(a, b),
{
    let w = (a, b);
    assert(trim_bounds(s, w.0, w.1));
    let ab = choose|ab: (int, int)| trim_bounds(s, ab.0, ab.1);
    lemma_trim_bounds_unique(s, a, b, ab.0, ab.1);
}

/// The string without leading and trailing white space.
pub fn trim_str(s: &str) -> (r: &str)
    ensures
        r@ == trim(s@),
{
    let n = s.unicode_len();
    let mut a: usize = 0;
    while a < n && char_is_ws(s.get_char(a))
        invariant
            n == s@.len(),
            a <= n,
            forall|m: int| 0 <= m < a ==> is_ws(#[trigger] s@[m]),
        decreases n - a,
    {
        a = a + 1;
    }
    let mut b: usize = n;
    while b > a && char_is_ws(s.get_char(b - 1))
        invariant
            n == s@.len(),
            a <= b <= n,
            forall|m: int| b <= m < n ==> is_ws(#[trigger] s@[m]),
        decreases b,
    {
        b = b - 1;
    }
    proof {
        if a == b && a < n {
            assert(!is_ws(s@[a as int]));
        }
        lemma_trim(s@, a as int, b as int);
    }
    s.substring_char(a, b)
}

/// The same string, as an owned `String`.
pub fn to_owned_string(s: &str) -> (r: String)
    ensures
        r@ == s@,
{
    let mut out = String::new();
    out.append(s);
    out
}

/// Lower-case ASCII letters and their upper-case forms.
pub open spec fn eq_ignore_ascii_case(c: char, lower: char) -> bool {
    c == lower || (c as u32) + 32 == (lower as u32)
}

/// A file reference `{file:<target>}`; "file" in any case, the target one or
/// more characters without a line break. Gives the target.
pub open spec fn file_reference_target(t: Seq<char>) -> Option<Seq<char>> {
    if t.len() >= 8 && t[0] == '{' && eq_ignore_ascii_case(t[1], 'f') && eq_ignore_ascii_case(
        t[2],
        'i',
    ) && eq_ignore_ascii_case(t[3], 'l') && eq_ignore_ascii_case(t[4], 'e') && t[5] == ':'
        && t[t.len() - 1] == '}' && (forall|m: int| 6 <= m < t.len() - 1 ==> t[m] != '\n') {
        Some(t.subrange(6, t.len() - 1))
    } else {
        None
    }
}

/// Whether the trimmed value is a file reference.
pub open spec fn is_file_reference(v: Seq<char>) -> bool {
    file_reference_target(trim(v)) is Some
}

fn char_eq_ignore_ascii_case(c: char, lower: char) -> (r: bool)
    requires
        'a' <= lower <= 'z',
    ensures
        r == eq_ignore_ascii_case(c, lower),
{
    c == lower || (c as u32) + 32 == (lower as u32)
}

/// The target of a file reference, or `None` where `t` is not one.
pub fn reference_target(t: &str) -> (r: Option<&str>)
    ensures
        match r {
            Some(x) => file_reference_target(t@) == Some(x@),
            None => file_reference_target(t@) is None,
        },
{
    let n = t.unicode_len();
    if n < 8 || t.get_char(0) != '{' || !char_eq_ignore_ascii_case(t.get_char(1), 'f')
        || !char_eq_ignore_ascii_case(t.get_char(2), 'i') || !char_eq_ignore_ascii_case(
        t.get_char(3),
        'l',
    ) || !char_eq_ignore_ascii_case(t.get_char(4), 'e') || t.get_char(5) != ':' || t.get_char(
        n - 1,
    ) != '}' {
        return None;
    }
    let mut i: usize = 6;
    while i < n - 1
        invariant
            n == t@.len(),
            n >= 8,
            6 <= i <= n - 1,
            forall|m: int| 6 <= m < i ==> t@[m] != '\n',
        decreases n - i,
    {
        if t.get_char(i) == '\n' {
            return None;
        }
        i = i + 1;
    }
    Some(t.substring_char(6, n - 1))
}

/// Whether a value, once trimmed, is a file reference.
pub fn is_prompt_file_reference(value: &str) -> (r: bool)
    ensures
        r == is_file_reference(value@),
{
    reference_target(trim_str(value)).is_some()
}

pub open spec fn starts_with(s: Seq<char>, p: Seq<char>) -> bool {
    p.len() <= s.len() && s.subrange(0, p.len() as int) == p
}

/// `dir` joined with `rel`: an absolute `rel` stands alone, else the two are
/// separated by one `/`.
pub open spec fn join_path(dir: Seq<char>, rel: Seq<char>) -> Seq<char> {
    if rel.len() > 0 && rel[0] == '/' {
        rel
    } else if dir.len() > 0 && dir.last() == '/' {
        dir + rel
    } else {
        dir + seq!['/'] + rel
    }
}

pub fn join(dir: &str, rel: &str) -> (r: String)
    ensures
        r@ == join_path(dir@, rel@),
{
    let n = dir.unicode_len();
    let mut out = String::new();
    if rel.unicode_len() > 0 && rel.get_char(0) == '/' {
        out.append(rel);
        return out;
    }
    out.append(dir);
    if !(n > 0 && dir.get_char(n - 1) == '/') {
        out.push('/');
    }
    out.append(rel);
    assert(out@ =~= join_path(dir@, rel@));
    out
}

/// The file a reference names: a target after `./`, or any other relative
/// target, is taken under `config_dir`; an absolute one stands as it is.
/// `None` where the value is not a reference or its target is blank.
pub open spec fn resolve_reference(config_dir: Seq<char>, value: Seq<char>) -> Option<Seq<char>> {
    match file_reference_target(trim(value)) {
        None => None,
        Some(raw) => {
            let target = trim(raw);
            if target.len() == 0 {
                None
            } else if starts_with(target, seq!['.', '/']) {
                Some(join_path(config_dir, target.subrange(2, target.len() as int)))
            } else {
                Some(join_path(config_dir, target))
            }
        },
    }
}

/// Resolve a file reference to the path of the file it names.
pub fn resolve_prompt_file_path(config_dir: &str, reference: &str) -> (r: Option<String>)
    ensures
        match r {
            Some(p) => resolve_reference(config_dir@, reference@) == Some(p@),
            None => resolve_reference(config_dir@, reference@) is None,
        },
{
    let raw = match reference_target(trim_str(reference)) {
        Some(x) => x,
        None => return None,
    };
    let target = trim_str(raw);
    let n = target.unicode_len();
    if n == 0 {
        return None;
    }
    if n >= 2 && target.get_char(0) == '.' && target.get_char(1) == '/' {
        assert(target@.subrange(0, 2) =~= seq!['.', '/']);
        Some(join(config_dir, target.substring_char(2, n)))
    } else {
        proof {
            if starts_with(target@, seq!['.', '/']) {
                assert(target@.subrange(0, 2)[0] == '.');
                assert(target@.subrange(0, 2)[1] == '/');
            }
        }
        Some(join(config_dir, target))
    }
}


/// Where the comment scanner stands.
pub enum Lex {
    Code,
    Str,
    Escape,
    Line,
    Block,
    BlockStar,
}

/// The text from position `i` on, with `//` line comments and `/* */` block
/// comments outside string literals taken out; a line comment keeps its line
/// break.
pub open spec fn strip_from(s: Seq<char>, i: int, mode: Lex) -> Seq<char>
    decreases s.len() - i,
{
    if i < 0 || i >= s.len() {
        Seq::empty()
    } else {
        let c = s[i];
        match mode {
            Lex::Escape => seq![c] + strip_from(s, i + 1, Lex::Str),
            Lex::Str => if c == '\\' {
                seq![c] + strip_from(s, i + 1, Lex::Escape)
            } else if c == '"' {
                seq![c] + strip_from(s, i + 1, Lex::Code)
            } else {
                seq![c] + strip_from(s, i + 1, Lex::Str)
            },
            Lex::Line => if c == '\n' {
                seq!['\n'] + strip_from(s, i + 1, Lex::Code)
            } else {
                strip_from(s, i + 1, Lex::Line)
            },
            Lex::Block => if c == '*' {
                strip_from(s, i + 1, Lex::BlockStar)
            } else {
                strip_from(s, i + 1, Lex::Block)
            },
            Lex::BlockStar => if c == '/' {
                strip_from(s, i + 1, Lex::Code)
            } else if c == '*' {
                strip_from(s, i + 1, Lex::BlockStar)
            } else {
                strip_from(s, i + 1, Lex::Block)
            },
            Lex::Code => if c == '"' {
                seq![c] + strip_from(s, i + 1, Lex::Str)
            } else if c == '/' && i + 1 < s.len() && s[i + 1] == '/' {
                strip_from(s, i + 2, Lex::Line)
            } else if c == '/' && i + 1 < s.len() && s[i + 1] == '*' {
                strip_from(s, i + 2, Lex::Block)
            } else {
                seq![c] + strip_from(s, i + 1, Lex::Code)
            },
        }
    }
}

pub open spec fn strip_comments(s: Seq<char>) -> Seq<char> {
    strip_from(s, 0, Lex::Code)
}

/// The text with its JSON comments taken out.
pub fn strip_json_comments(content: &str) -> (r: String)
    ensures
        r@ == strip_comments(content@),
{
    let n = content.unicode_len();
    let mut out = String::new();
    let mut mode = Lex::Code;
    let mut i: usize = 0;
    while i < n
        invariant
            n == content@.len(),
            i <= n + 1,
            out@ + strip_from(content@, i as int, mode) == strip_comments(content@),
        decreases n + 1 - i,
    {
        let ghost before = out@;
        let ghost s = content@;
        let c = content.get_char(i);
        let ghost rest = strip_from(s, i as int, mode);
        match mode {
            Lex::Escape => {
                out.push(c);
                mode = Lex::Str;
                i = i + 1;
            },
            Lex::Str => {
                out.push(c);
                if c == '\\' {
                    mode = Lex::Escape;
                } else if c == '"' {
                    mode = Lex::Code;
                }
                i = i + 1;
            },
            Lex::Line => {
                if c == '\n' {
                    out.push('\n');
                    mode = Lex::Code;
                }
                i = i + 1;
            },
            Lex::Block => {
                if c == '*' {
                    mode = Lex::BlockStar;
                }
                i = i + 1;
            },
            Lex::BlockStar => {
                if c == '/' {
                    mode = Lex::Code;
                } else if c != '*' {
                    mode = Lex::Block;
                }
                i = i + 1;
            },
            Lex::Code => {
                if c == '"' {
                    out.push(c);
                    mode = Lex::Str;
                    i = i + 1;
                } else if c == '/' && i + 1 < n && content.get_char(i + 1) == '/' {
                    mode = Lex::Line;
                    i = i + 2;
                } else if c == '/' && i + 1 < n && content.get_char(i + 1) == '*' {
                    mode = Lex::Block;
                    i = i + 2;
                } else {
                    out.push(c);
                    i = i + 1;
                }
            },
        }
        assert(out@ + strip_from(s, i as int, mode) =~= before + rest);
    }
    assert(strip_from(content@, i as int, mode) == Seq::<char>::empty());
    assert(out@ =~= out@ + strip_from(content@, i as int, mode));
    out
}

/// Length of the opening `---` line of a frontmatter block, or -1.
pub open spec fn header_len(c: Seq<char>) -> int {
    if c.len() >= 5 && c[0] == '-' && c[1] == '-' && c[2] == '-' && c[3] == '\r' && c[4] == '\n' {
        5
    } else if c.len() >= 4 && c[0] == '-' && c[1] == '-' && c[2] == '-' && c[3] == '\n' {
        4
    } else {
        -1
    }
}

/// Length of a closing `\n---\n` (each line break optionally after `\r`) that
/// starts at `p`, or -1.
pub open spec fn sep_len(c: Seq<char>, p: int) -> int {
    let a: int = if 0 <= p < c.len() && c[p] == '\r' { 1 } else { 0 };
    let q = p + a + 4;
    if 0 <= p && q < c.len() && c[p + a] == '\n' && c[p + a + 1] == '-' && c[p + a + 2] == '-'
        && c[p + a + 3] == '-' {
        if c[q] == '\r' && q + 1 < c.len() && c[q + 1] == '\n' {
            a + 6
        } else if c[q] == '\n' {
            a + 5
        } else {
            -1
        }
    } else {
        -1
    }
}

/// The position of the first closing line at or after `h`: `p` is it.
pub open spec fn first_sep(c: Seq<char>, h: int, p: int) -> bool {
    h <= p < c.len() && sep_len(c, p) >= 0 && forall|m: int| h <= m < p ==> sep_len(c, m) < 0
}

/// A frontmatter block and the body after it: the text between the opening
/// line and the first closing line, and all that follows the closing line.
pub open spec fn split_frontmatter(c: Seq<char>) -> Option<(Seq<char>, Seq<char>)> {
    let h = header_len(c);
    if h >= 0 && exists|p: int| first_sep(c, h, p) {
        let p = choose|p: int| first_sep(c, h, p);
        Some((c.subrange(h, p), c.subrange(p + sep_len(c, p), c.len() as int)))
    } else {
        None
    }
}

fn ch(s: &str, n: usize, i: usize) -> (r: char)
    requires
        n == s@.len(),
    ensures
        i < n ==> r == s@[i as int],
        i >= n ==> r == '\0',
{
    if i < n {
        s.get_char(i)
    } else {
        '\0'
    }
}

fn sep_at(c: &str, n: usize, p: usize) -> (r: usize)
    requires
        n == c@.len(),
    ensures
        r as int == if sep_len(c@, p as int) < 0 { 0 } else { sep_len(c@, p as int) },
{
    if p >= n || n - p < 5 {
        return 0;
    }
    let a: usize = if ch(c, n, p) == '\r' { 1 } else { 0 };
    let q = p + a + 4;
    if q < n && ch(c, n, p + a) == '\n' && ch(c, n, p + a + 1) == '-' && ch(c, n, p + a + 2) == '-'
        && ch(c, n, p + a + 3) == '-' {
        if ch(c, n, q) == '\r' && q < n - 1 && ch(c, n, q + 1) == '\n' {
            a + 6
        } else if ch(c, n, q) == '\n' {
            a + 5
        } else {
            0
        }
    } else {
        0
    }
}

/// Split a Markdown text into its frontmatter text and its body.
pub fn split_md(c: &str) -> (r: Option<(&str, &str)>)
    ensures
        match r {
            Some((y, b)) => split_frontmatter(c@) == Some((y@, b@)),
            None => split_frontmatter(c@) is None,
        },
{
    let n = c.unicode_len();
    let h: usize = if ch(c, n, 0) == '-' && ch(c, n, 1) == '-' && ch(c, n, 2) == '-' && ch(c, n, 3)
        == '\r' && ch(c, n, 4) == '\n' {
        5
    } else if ch(c, n, 0) == '-' && ch(c, n, 1) == '-' && ch(c, n, 2) == '-' && ch(c, n, 3)
        == '\n' {
        4
    } else {
        return None;
    };
    assert(h as int == header_len(c@));
    let mut p: usize = h;
    while p < n
        invariant
            n == c@.len(),
            h as int == header_len(c@),
            h <= p,
            forall|m: int| h <= m < p ==> sep_len(c@, m) < 0,
        decreases n - p,
    {
        let l = sep_at(c, n, p);
        if l > 0 {
            assert(first_sep(c@, h as int, p as int));
            proof {
                let q = choose|q: int| first_sep(c@, h as int, q);
                if q < p {
                    assert(sep_len(c@, q) < 0);
                } else if p < q {
                    assert(sep_len(c@, p as int) < 0);
                }
            }
            return Some((c.substring_char(h, p), c.substring_char(p + l, n)));
        }
        p = p + 1;
    }
    proof {
        if exists|q: int| first_sep(c@, h as int, q) {
            let q = choose|q: int| first_sep(c@, h as int, q);
            assert(sep_len(c@, q) < 0);
        }
    }
    None
}

} // verus!
