//! The line-based build template format.
//!
//! Each line is one instruction: a case-insensitive keyword, blanks,
//! then the instruction's text.  Comment lines start with `#`.  The
//! manifest-style template form is detected here but decoded by the
//! loader around the library.

use vstd::prelude::*;
use vstd::string::*;
use crate::blueprint::instructions::{
    BuildArg, CopySpec, ExposePort, Instruction, Jailfile,
};
use crate::errors::Error;
use crate::text::{is_blank, leading_blanks};

verus! {

/// Whether `s` starts with the uppercase keyword `kw`, matched without
/// regard to letter case, followed by at least one blank.
pub open spec fn spec_kw(s: Seq<char>, kw: Seq<char>) -> bool {
    &&& s.len() > kw.len()
    &&& (forall|i: int|
        0 <= i < kw.len() ==> (#[trigger] s[i]) == kw[i] || s[i] as int == kw[i] as int + 32)
    &&& is_blank(s[kw.len() as int])
}

/// The text after the keyword and the blank run that follows it.
pub open spec fn spec_rest(s: Seq<char>, kwlen: int) -> Seq<char> {
    let t = s.skip(kwlen);
    t.skip(leading_blanks(t) as int)
}

/// Whether `s` starts with the uppercase keyword, case-insensitively,
/// followed by a blank.
fn kw_match(s: &str, kw: &str) -> (r: bool)
    requires
        forall|i: int| 0 <= i < kw@.len() ==> 'A' <= (#[trigger] kw@[i]) <= 'Z',
    ensures
        r == spec_kw(s@, kw@),
{
    let n = s.unicode_len();
    let m = kw.unicode_len();
    if n <= m {
        return false;
    }
    let mut i: usize = 0;
    while i < m
        invariant
            n == s@.len(),
            m == kw@.len(),
            m < n,
            i <= m,
            forall|j: int| 0 <= j < kw@.len() ==> 'A' <= (#[trigger] kw@[j]) <= 'Z',
            forall|j: int|
                0 <= j < i ==> (#[trigger] s@[j]) == kw@[j] || s@[j] as int == kw@[j] as int
                    + 32,
        decreases m - i,
    {
        let a = s.get_char(i);
        let b = kw.get_char(i);
        let lower: char = lowercase_of(b);
        if a != b && a != lower {
            proof {
                assert(!(s@[i as int] == kw@[i as int] || s@[i as int] as int == kw@[
                    i as int] as int + 32));
            }
            return false;
        }
        i = i + 1;
    }
    crate::text::is_blank_char(s.get_char(m))
}

/// The lowercase form of an uppercase letter.
fn lowercase_of(b: char) -> (r: char)
    requires
        'A' <= b <= 'Z',
    ensures
        r as int == b as int + 32,
{
    match b {
        'A' => 'a',
        'B' => 'b',
        'C' => 'c',
        'D' => 'd',
        'E' => 'e',
        'F' => 'f',
        'G' => 'g',
        'H' => 'h',
        'I' => 'i',
        'J' => 'j',
        'K' => 'k',
        'L' => 'l',
        'M' => 'm',
        'N' => 'n',
        'O' => 'o',
        'P' => 'p',
        'Q' => 'q',
        'R' => 'r',
        'S' => 's',
        'T' => 't',
        'U' => 'u',
        'V' => 'v',
        'W' => 'w',
        'X' => 'x',
        'Y' => 'y',
        _ => 'z',
    }
}

/// The text after the keyword of length `m` and the blanks behind it.
fn rest_after(s: &str, m: usize) -> (r: String)
    requires
        m < s@.len(),
    ensures
        r@ == spec_rest(s@, m as int),
{
    let n = s.unicode_len();
    let mut a: usize = m;
    while a < n && crate::text::is_blank_char(s.get_char(a))
        invariant
            n == s@.len(),
            m <= a <= n,
            forall|j: int| m <= j < a ==> is_blank(#[trigger] s@[j]),
        decreases n - a,
    {
        a = a + 1;
    }
    let piece = s.substring_char(a, n);
    proof {
        let t = s@.skip(m as int);
        assert forall|j: int| 0 <= j < a - m implies is_blank(#[trigger] t[j]) by {
            assert(t[j] == s@[m + j]);
        }
        if a < n {
            assert(t[a - m] == s@[a as int]);
        }
        crate::text::lemma_leading_blanks_at(t, a - m);
        assert(piece@ =~= spec_rest(s@, m as int));
    }
    piece.to_owned()
}

/// The longest prefix of identifier characters (letters, digits,
/// underscore) from position `m` on.
fn ident_from(s: &str, m: usize) -> (r: (String, usize))
    requires
        m <= s@.len(),
    ensures
        m <= r.1 <= s@.len(),
        r.0@ == s@.subrange(m as int, r.1 as int),
{
    let n = s.unicode_len();
    let mut b: usize = m;
    while b < n && ident_char(s.get_char(b))
        invariant
            n == s@.len(),
            m <= b <= n,
        decreases n - b,
    {
        b = b + 1;
    }
    let piece = s.substring_char(m, b);
    (piece.to_owned(), b)
}

/// Whether a character may stand in an identifier.
fn ident_char(c: char) -> (r: bool)
    ensures
        r == (('a' <= c <= 'z') || ('A' <= c <= 'Z') || ('0' <= c <= '9') || c == '_'),
{
    ('a' <= c && c <= 'z') || ('A' <= c && c <= 'Z') || ('0' <= c && c <= '9') || c == '_'
}

/// The longest prefix of non-blank characters from position `m` on.
fn token_from(s: &str, m: usize) -> (r: (String, usize))
    requires
        m <= s@.len(),
    ensures
        m <= r.1 <= s@.len(),
        r.0@ == s@.subrange(m as int, r.1 as int),
        m == 0 ==> r.0@ == token_of(s@),
{
    let n = s.unicode_len();
    let mut b: usize = m;
    while b < n && !crate::text::is_blank_char(s.get_char(b))
        invariant
            n == s@.len(),
            m <= b <= n,
            forall|j: int| m <= j < b ==> !is_blank(#[trigger] s@[j]),
        decreases n - b,
    {
        b = b + 1;
    }
    let piece = s.substring_char(m, b);
    proof {
        if m == 0 {
            lemma_leading_nonblanks_at(s@, b as int);
            assert(piece@ =~= token_of(s@));
        }
    }
    (piece.to_owned(), b)
}

/// When the first `k` characters are non-blank and (in range) the
/// `k`-th is blank, the leading non-blank count is exactly `k`.
proof fn lemma_leading_nonblanks_at(s: Seq<char>, k: int)
    requires
        0 <= k <= s.len(),
        forall|j: int| 0 <= j < k ==> !is_blank(#[trigger] s[j]),
        k < s.len() ==> is_blank(s[k]),
    ensures
        leading_nonblanks(s) == if k < s.len() {
            k as nat
        } else {
            s.len()
        },
    decreases k,
{
    if k > 0 {
        lemma_leading_nonblanks_at(s.skip(1), k - 1);
    }
}

/// Parse one trimmed line.  An empty or comment line is no
/// instruction; a keyword line is its instruction, with the rest-of-line
/// instructions (`FROM`, `RUN`, `WORKDIR`, `CMD`, `ENTRYPOINT`, `USER`,
/// `VOLUME`) pinned exactly; an unknown keyword is rejected.
pub fn parse_line(line: &str) -> (r: Result<Option<Instruction>, Error>)
    ensures
        line@.len() == 0 ==> (r matches Ok(x) && x is None),
        line@.len() > 0 && line@[0] == '#' ==> (r matches Ok(x) && x is None),
        spec_kw(line@, "FROM"@) ==> (r matches Ok(x) && (x matches Some(ins) && (ins
            matches Instruction::From(f) && f@ == token_of(spec_rest(line@, 4))))),
        spec_kw(line@, "RUN"@) ==> (r matches Ok(x) && (x matches Some(ins) && (ins
            matches Instruction::Run(c) && c@ == spec_rest(line@, 3)))),
        spec_kw(line@, "WORKDIR"@) ==> (r matches Ok(x) && (x matches Some(ins) && (ins
            matches Instruction::Workdir(p) && p@ == spec_rest(line@, 7)))),
        spec_kw(line@, "CMD"@) ==> (r matches Ok(x) && (x matches Some(ins) && (ins
            matches Instruction::Cmd(c) && c@ == spec_rest(line@, 3)))),
        spec_kw(line@, "ENTRYPOINT"@) ==> (r matches Ok(x) && (x matches Some(ins) && (ins
            matches Instruction::Entrypoint(c) && c@ == spec_rest(line@, 10)))),
        spec_kw(line@, "USER"@) ==> (r matches Ok(x) && (x matches Some(ins) && (ins
            matches Instruction::User(u) && u@ == spec_rest(line@, 4)))),
        spec_kw(line@, "VOLUME"@) ==> (r matches Ok(x) && (x matches Some(ins) && (ins
            matches Instruction::Volume(p) && p@ == spec_rest(line@, 6)))),
        spec_kw(line@, "ARG"@) ==> (r matches Ok(x) && (x matches Some(ins) && ins is Arg)),
        spec_kw(line@, "ENV"@) ==> (r matches Ok(x) && (x matches Some(ins) && ins is Env)),
        spec_kw(line@, "COPY"@) ==> (r matches Ok(x) ==> (x matches Some(ins) && ins
            is Copy)),
        spec_kw(line@, "EXPOSE"@) ==> (r matches Ok(x) && (x matches Some(ins) && ins
            is Expose)),
        spec_kw(line@, "LABEL"@) ==> (r matches Ok(x) ==> (x matches Some(ins) && ins
            is Label)),
{
    proof {
        reveal_strlit("FROM");
        reveal_strlit("ARG");
        reveal_strlit("ENV");
        reveal_strlit("RUN");
        reveal_strlit("COPY");
        reveal_strlit("WORKDIR");
        reveal_strlit("EXPOSE");
        reveal_strlit("CMD");
        reveal_strlit("ENTRYPOINT");
        reveal_strlit("USER");
        reveal_strlit("LABEL");
        reveal_strlit("VOLUME");
        lemma_keywords_distinct();
    }
    let n = line.unicode_len();
    if n == 0 {
        return Ok(None);
    }
    if line.get_char(0) == '#' {
        return Ok(None);
    }
    if kw_match(line, "FROM") {
        let rest = rest_after(line, 4);
        let (tok, _end) = token_from(rest.as_str(), 0);
        return Ok(Some(Instruction::From(tok)));
    }
    if kw_match(line, "ARG") {
        let rest = rest_after(line, 3);
        let (name, end) = ident_from(rest.as_str(), 0);
        let default: Option<String> = if end < rest.as_str().unicode_len()
            && rest.as_str().get_char(end) == '=' {
            let raw = rest.as_str().substring_char(end + 1, rest.as_str().unicode_len());
            Some(crate::text::trim_blanks(raw))
        } else {
            None
        };
        return Ok(Some(Instruction::Arg(BuildArg { name, default })));
    }
    if kw_match(line, "ENV") {
        let rest = rest_after(line, 3);
        let (name, end) = ident_from(rest.as_str(), 0);
        let rn = rest.as_str().unicode_len();
        if end < rn && (rest.as_str().get_char(end) == '=' || rest.as_str().get_char(end)
            == ' ') {
            let raw = rest.as_str().substring_char(end + 1, rn);
            let value = crate::text::trim_blanks(raw);
            return Ok(Some(Instruction::Env(name, value)));
        }
        return Ok(Some(Instruction::Env(name, String::new())));
    }
    if kw_match(line, "RUN") {
        let rest = rest_after(line, 3);
        return Ok(Some(Instruction::Run(rest)));
    }
    if kw_match(line, "COPY") {
        let rest = rest_after(line, 4);
        let (src, end) = token_from(rest.as_str(), 0);
        let rn = rest.as_str().unicode_len();
        if end >= rn {
            return Err(Error::TemplateParseFailed(String::from_str(
                "a copy needs a source and a destination")));
        }
        let raw = rest.as_str().substring_char(end, rn);
        let dest = crate::text::trim_blanks(raw);
        if dest.as_str().unicode_len() == 0 {
            return Err(Error::TemplateParseFailed(String::from_str(
                "a copy needs a destination")));
        }
        return Ok(Some(Instruction::Copy(CopySpec {
            src,
            dest,
            mode: None,
            owner: None,
        })));
    }
    if kw_match(line, "WORKDIR") {
        let rest = rest_after(line, 7);
        return Ok(Some(Instruction::Workdir(rest)));
    }
    if kw_match(line, "EXPOSE") {
        let rest = rest_after(line, 6);
        let trimmed = crate::text::trim_blanks(rest.as_str());
        let port = match ExposePort::parse(trimmed.as_str()) {
            Some(p) => p,
            None => ExposePort::tcp(0),
        };
        return Ok(Some(Instruction::Expose(port)));
    }
    if kw_match(line, "CMD") {
        let rest = rest_after(line, 3);
        return Ok(Some(Instruction::Cmd(rest)));
    }
    if kw_match(line, "ENTRYPOINT") {
        let rest = rest_after(line, 10);
        return Ok(Some(Instruction::Entrypoint(rest)));
    }
    if kw_match(line, "USER") {
        let rest = rest_after(line, 4);
        return Ok(Some(Instruction::User(rest)));
    }
    if kw_match(line, "LABEL") {
        let rest = rest_after(line, 5);
        let rn = rest.as_str().unicode_len();
        let mut b: usize = 0;
        while b < rn && label_key_char(rest.as_str().get_char(b))
            invariant
                rn == rest@.len(),
                b <= rn,
            decreases rn - b,
        {
            b = b + 1;
        }
        let key = rest.as_str().substring_char(0, b).to_owned();
        if b >= rn || rest.as_str().get_char(b) != '=' {
            return Err(Error::TemplateParseFailed(String::from_str(
                "a label needs a value")));
        }
        let mut value = rest.as_str().substring_char(b + 1, rn).to_owned();
        let vn = value.as_str().unicode_len();
        if vn >= 2 && value.as_str().get_char(0) == '"' && value.as_str().get_char(vn - 1)
            == '"' {
            value = value.as_str().substring_char(1, vn - 1).to_owned();
        }
        return Ok(Some(Instruction::Label(key, value)));
    }
    if kw_match(line, "VOLUME") {
        let rest = rest_after(line, 6);
        return Ok(Some(Instruction::Volume(rest)));
    }
    Err(Error::TemplateParseFailed(line.to_owned()))
}

/// Whether a character may stand in a label key.
fn label_key_char(c: char) -> (r: bool)
    ensures
        r == (('a' <= c <= 'z') || ('A' <= c <= 'Z') || ('0' <= c <= '9') || c == '_' || c
            == '.' || c == '-'),
{
    ('a' <= c && c <= 'z') || ('A' <= c && c <= 'Z') || ('0' <= c && c <= '9') || c == '_' || c
        == '.' || c == '-'
}

/// The longest non-blank prefix.
pub open spec fn token_of(s: Seq<char>) -> Seq<char> {
    s.take(leading_nonblanks(s) as int)
}

/// The number of leading non-blanks.
pub open spec fn leading_nonblanks(s: Seq<char>) -> nat
    decreases s.len(),
{
    if s.len() == 0 || is_blank(s[0]) {
        0
    } else {
        1 + leading_nonblanks(s.skip(1))
    }
}

/// No two keywords of the line format match the same line.
proof fn lemma_keywords_distinct()
    ensures
        "FROM"@.len() == 4,
        "ARG"@.len() == 3,
        "ENV"@.len() == 3,
        "RUN"@.len() == 3,
        "COPY"@.len() == 4,
        "WORKDIR"@.len() == 7,
        "EXPOSE"@.len() == 6,
        "CMD"@.len() == 3,
        "ENTRYPOINT"@.len() == 10,
        "USER"@.len() == 4,
        "LABEL"@.len() == 5,
        "VOLUME"@.len() == 6,
{
    reveal_strlit("FROM");
    reveal_strlit("ARG");
    reveal_strlit("ENV");
    reveal_strlit("RUN");
    reveal_strlit("COPY");
    reveal_strlit("WORKDIR");
    reveal_strlit("EXPOSE");
    reveal_strlit("CMD");
    reveal_strlit("ENTRYPOINT");
    reveal_strlit("USER");
    reveal_strlit("LABEL");
    reveal_strlit("VOLUME");
}

/// Parse the line-based template format: each non-empty line is a
/// comment or an instruction, and the template's summary fields follow
/// the instructions in order.
pub fn parse_line_format(content: &str) -> (r: Result<Jailfile, Error>)
    ensures
        r matches Ok(jf) ==> jf.instructions@.len() <= crate::text::spec_split(
            content@, '\n').len(),
{
    let lines = crate::text::split_char(content, '\n');
    let mut jf = Jailfile::new();
    let mut i: usize = 0;
    while i < lines.len()
        invariant
            i <= lines@.len(),
            jf.instructions@.len() <= i,
        decreases lines@.len() - i,
    {
        let line = crate::text::trim_blanks(lines[i].as_str());
        let ln = line.as_str().unicode_len();
        if ln == 0 {
            i = i + 1;
            continue;
        }
        if line.as_str().get_char(0) == '#' {
            let tail = line.as_str().substring_char(1, ln);
            let comment = crate::text::trim_blanks(tail);
            jf.instructions.push(Instruction::Comment(comment));
            i = i + 1;
            continue;
        }
        let parsed = match parse_line(line.as_str()) {
            Ok(p) => p,
            Err(e) => {
                return Err(e);
            }
        };
        match parsed {
            Some(ins) => {
                match &ins {
                    Instruction::From(release) => {
                        jf.from = Some(release.clone());
                    }
                    Instruction::Arg(arg) => {
                        jf.args.push(BuildArg {
                            name: arg.name.clone(),
                            default: match &arg.default {
                                Some(d) => Some(d.clone()),
                                None => None,
                            },
                        });
                    }
                    Instruction::Env(name, value) => {
                        jf.env.push((name.clone(), value.clone()));
                    }
                    Instruction::Workdir(path) => {
                        jf.workdir = Some(path.clone());
                    }
                    Instruction::Expose(port) => {
                        jf.expose.push(ExposePort {
                            port: port.port,
                            protocol: port.protocol.clone(),
                        });
                    }
                    Instruction::Cmd(cmd) => {
                        jf.cmd = Some(cmd.clone());
                    }
                    Instruction::Entrypoint(cmd) => {
                        jf.entrypoint = Some(cmd.clone());
                    }
                    Instruction::User(user) => {
                        jf.user = Some(user.clone());
                    }
                    Instruction::Volume(path) => {
                        jf.volumes.push(path.clone());
                    }
                    _ => {}
                }
                jf.instructions.push(ins);
            }
            None => {}
        }
        i = i + 1;
    }
    Ok(jf)
}

/// Whether template text is in the manifest form rather than the line
/// form.
pub fn is_manifest_form(content: &str) -> (r: bool)
{
    proof {
        reveal_strlit("[");
        reveal_strlit("[metadata]");
        reveal_strlit("[build]");
    }
    let trimmed = crate::text::trim_blanks(content);
    (trimmed.as_str().unicode_len() > 0 && trimmed.as_str().get_char(0) == '[')
        || crate::text::str_contains(content, "[metadata]") || crate::text::str_contains(
        content, "[build]")
}

/// Parse a template, whichever form it is in.  The line form is parsed
/// here; manifest-form text is reported as such for the loader, which
/// decodes that syntax, to handle.
pub fn parse_jailfile(content: &str) -> (r: Result<Jailfile, Error>)
{
    if is_manifest_form(content) {
        return Err(Error::TemplateParseFailed(String::from_str(
            "the template is in manifest form; the loader decodes it")));
    }
    parse_line_format(content)
}

} // verus!
