//! The configuration-file text format and its strict schema.
//!
//! The persisted configuration is line-oriented text: a `[section]` header
//! line opens a named table, a `key = "value"` line binds a key inside the
//! current table, empty lines and `#` comment lines are skipped. The schema
//! is strict: the only known table is `hello`, its only known key is
//! `recipient`, any other section or key is rejected as an unknown field
//! rather than being silently ignored, duplicates and missing required keys
//! are rejected too. Values are taken literally between the quotes; a value
//! holding a quote or a line break has no representation in this format.
//!
//! The grammar lives in the spec functions (`split_lines`, `classify_line`,
//! `lex_from`, `validate_document`); the executable parser and serializer are
//! proved equal to them.

use crate::chars::{chars_of, eq_chars, string_of};
use crate::config::AssimilateConfig;
use crate::errors::ConfigError;
use vstd::prelude::*;

verus! {

/// One `(section, key, value)` binding read from the file.
pub type SpecEntry = (Seq<char>, Seq<char>, Seq<char>);

/// The name of the one known section.
pub open spec fn hello_name() -> Seq<char> {
    "hello"@
}

/// The name of the one known key of the `hello` section.
pub open spec fn recipient_name() -> Seq<char> {
    "recipient"@
}

/// Characters allowed in section and key names.
pub open spec fn is_name_char(c: char) -> bool {
    ||| 'a' as u32 <= c as u32 && c as u32 <= 'z' as u32
    ||| 'A' as u32 <= c as u32 && c as u32 <= 'Z' as u32
    ||| '0' as u32 <= c as u32 && c as u32 <= '9' as u32
    ||| c == '_'
    ||| c == '-'
}

/// A non-empty run of name characters.
pub open spec fn is_name(s: Seq<char>) -> bool {
    s.len() > 0 && (forall|i: int| 0 <= i < s.len() ==> is_name_char(s[i]))
}

/// No double quote occurs in `s`.
pub open spec fn no_quote(s: Seq<char>) -> bool {
    forall|i: int| 0 <= i < s.len() ==> s[i] != '"'
}

/// No line break occurs in `s`.
pub open spec fn no_newline(s: Seq<char>) -> bool {
    forall|i: int| 0 <= i < s.len() ==> s[i] != '\n'
}

/// Splits `s` into its lines, accumulator form: `cur` is the line being
/// gathered, `acc` the finished lines. A trailing line break therefore
/// yields a final empty line.
pub open spec fn split_lines_from(s: Seq<char>, i: int, cur: Seq<char>, acc: Seq<Seq<char>>) -> Seq<
    Seq<char>,
>
    decreases s.len() - i,
{
    if i < 0 || i >= s.len() {
        acc.push(cur)
    } else if s[i] == '\n' {
        split_lines_from(s, i + 1, Seq::empty(), acc.push(cur))
    } else {
        split_lines_from(s, i + 1, cur.push(s[i]), acc)
    }
}

/// The lines of `s`: the segments between line breaks.
pub open spec fn split_lines(s: Seq<char>) -> Seq<Seq<char>> {
    split_lines_from(s, 0, Seq::empty(), Seq::empty())
}

/// First position at or after `i` holding a non-name character, or the end.
pub open spec fn name_end(s: Seq<char>, i: int) -> int
    decreases s.len() - i,
{
    if i < 0 || i >= s.len() {
        s.len() as int
    } else if is_name_char(s[i]) {
        name_end(s, i + 1)
    } else {
        i
    }
}

/// What a single line means.
pub enum LineKind {
    /// Empty line or `#` comment: carries no content.
    Blank,
    /// `[name]`: opens the named section.
    Header(Seq<char>),
    /// `key = "value"`: binds `key` in the current section.
    KeyVal(Seq<char>, Seq<char>),
    /// Anything else: the file is malformed.
    Bad,
}

/// Classifies one line of the file.
pub open spec fn classify_line(l: Seq<char>) -> LineKind {
    if l.len() == 0 {
        LineKind::Blank
    } else if l[0] == '#' {
        LineKind::Blank
    } else if l[0] == '[' {
        if l.len() >= 3 && l[l.len() - 1] == ']' && is_name(l.subrange(1, l.len() - 1)) {
            LineKind::Header(l.subrange(1, l.len() - 1))
        } else {
            LineKind::Bad
        }
    } else {
        let k = name_end(l, 0);
        if k > 0 && l.len() >= k + 5 && l[k] == ' ' && l[k + 1] == '=' && l[k + 2] == ' ' && l[k
            + 3] == '"' && l[l.len() - 1] == '"' && no_quote(l.subrange(k + 4, l.len() - 1)) {
            LineKind::KeyVal(l.subrange(0, k), l.subrange(k + 4, l.len() - 1))
        } else {
            LineKind::Bad
        }
    }
}

/// Folds the classified lines into the document: the headers seen and the
/// `(section, key, value)` bindings, each binding tagged with the section
/// open where it stands (the empty name before any header). The first
/// malformed line aborts the fold.
pub open spec fn lex_from(
    lines: Seq<Seq<char>>,
    i: int,
    cur: Seq<char>,
    secs: Seq<Seq<char>>,
    ents: Seq<SpecEntry>,
) -> Result<(Seq<Seq<char>>, Seq<SpecEntry>), ConfigError>
    decreases lines.len() - i,
{
    if i < 0 || i >= lines.len() {
        Ok((secs, ents))
    } else {
        match classify_line(lines[i]) {
            LineKind::Blank => lex_from(lines, i + 1, cur, secs, ents),
            LineKind::Header(name) => lex_from(lines, i + 1, name, secs.push(name), ents),
            LineKind::KeyVal(k, v) => lex_from(lines, i + 1, cur, secs, ents.push((cur, k, v))),
            LineKind::Bad => Err(ConfigError::Malformed),
        }
    }
}

/// The document denoted by the file text, before schema validation.
pub open spec fn lex_document(text: Seq<char>) -> Result<
    (Seq<Seq<char>>, Seq<SpecEntry>),
    ConfigError,
> {
    lex_from(split_lines(text), 0, Seq::empty(), Seq::empty(), Seq::empty())
}

/// The section name is part of the schema.
pub open spec fn sec_known(s: Seq<char>) -> bool {
    s == hello_name()
}

/// The binding addresses a key the schema knows.
pub open spec fn ent_known(e: SpecEntry) -> bool {
    e.0 == hello_name() && e.1 == recipient_name()
}

/// The document mentions a section or key outside the schema.
pub open spec fn doc_has_unknown(secs: Seq<Seq<char>>, ents: Seq<SpecEntry>) -> bool {
    ||| exists|i: int| 0 <= i < secs.len() && !sec_known(secs[i])
    ||| exists|i: int| 0 <= i < ents.len() && !ent_known(ents[i])
}

/// Holds the document to the strict schema: every section and key must be
/// known, nothing may repeat, and the required key must be present. On
/// success the result is the recipient value.
pub open spec fn validate_document(secs: Seq<Seq<char>>, ents: Seq<SpecEntry>) -> Result<
    Seq<char>,
    ConfigError,
> {
    if doc_has_unknown(secs, ents) {
        Err(ConfigError::UnknownField)
    } else if secs.len() > 1 || ents.len() > 1 {
        Err(ConfigError::DuplicateField)
    } else if ents.len() == 0 {
        Err(ConfigError::MissingField)
    } else {
        Ok(ents[0].2)
    }
}

/// What loading a present file's text yields: the recipient value, or the
/// configuration error that aborts the load.
pub open spec fn parse_document(text: Seq<char>) -> Result<Seq<char>, ConfigError> {
    match lex_document(text) {
        Ok(doc) => validate_document(doc.0, doc.1),
        Err(e) => Err(e),
    }
}

/// The header line the serializer writes: `[hello]`.
pub open spec fn header_line() -> Seq<char> {
    seq!['['] + hello_name() + seq![']']
}

/// The binding line the serializer writes: `recipient = "v"`.
pub open spec fn kv_line(v: Seq<char>) -> Seq<char> {
    recipient_name() + seq![' ', '=', ' ', '"'] + v + seq!['"']
}

/// The text the serializer writes for a configuration whose recipient is `v`.
pub open spec fn render_document(v: Seq<char>) -> Seq<char> {
    header_line() + seq!['\n'] + kv_line(v) + seq!['\n']
}

/// The lines of a vector of line buffers.
pub open spec fn lines_view(lines: Seq<Vec<char>>) -> Seq<Seq<char>> {
    lines.map_values(|l: Vec<char>| l@)
}

/// One `(section, key, value)` binding as the parser materializes it.
pub struct RawEntry {
    /// The section the binding stands under (empty before any header).
    pub section: Vec<char>,
    /// The key being bound.
    pub key: Vec<char>,
    /// The bound value, the characters between the quotes.
    pub value: Vec<char>,
}

impl View for RawEntry {
    type V = SpecEntry;

    open spec fn view(&self) -> SpecEntry {
        (self.section@, self.key@, self.value@)
    }
}

/// The bindings of a vector of entries.
pub open spec fn entries_view(ents: Seq<RawEntry>) -> Seq<SpecEntry> {
    ents.map_values(|e: RawEntry| e@)
}

/// A classified line as the parser materializes it.
pub enum LineTok {
    /// Empty line or comment.
    Blank,
    /// Section header with its name.
    Header(Vec<char>),
    /// Key binding with its key and value.
    KeyVal(Vec<char>, Vec<char>),
    /// Malformed line.
    Bad,
}

impl View for LineTok {
    type V = LineKind;

    open spec fn view(&self) -> LineKind {
        match self {
            LineTok::Blank => LineKind::Blank,
            LineTok::Header(n) => LineKind::Header(n@),
            LineTok::KeyVal(k, v) => LineKind::KeyVal(k@, v@),
            LineTok::Bad => LineKind::Bad,
        }
    }
}

/// Decides `is_name_char`.
pub fn is_name_char_exec(c: char) -> (r: bool)
    ensures
        r == is_name_char(c),
{
    let u = c as u32;
    ('a' as u32 <= u && u <= 'z' as u32) || ('A' as u32 <= u && u <= 'Z' as u32) || ('0' as u32
        <= u && u <= '9' as u32) || c == '_' || c == '-'
}

/// Copies the characters of `l` between `a` and `b`.
pub fn copy_range(l: &Vec<char>, a: usize, b: usize) -> (r: Vec<char>)
    requires
        a <= b <= l@.len(),
    ensures
        r@ == l@.subrange(a as int, b as int),
{
    let mut r: Vec<char> = Vec::new();
    let mut j: usize = a;
    while j < b
        invariant
            a <= j <= b <= l@.len(),
            r@ == l@.subrange(a as int, j as int),
        decreases b - j,
    {
        r.push(l[j]);
        proof {
            assert(r@ =~= l@.subrange(a as int, j + 1));
        }
        j = j + 1;
    }
    r
}

/// Splits the text into its lines.
pub fn split_into_lines(cs: &Vec<char>) -> (r: Vec<Vec<char>>)
    ensures
        lines_view(r@) == split_lines(cs@),
{
    let mut acc: Vec<Vec<char>> = Vec::new();
    let mut cur: Vec<char> = Vec::new();
    let mut i: usize = 0;
    proof {
        assert(lines_view(acc@) =~= Seq::<Seq<char>>::empty());
    }
    while i < cs.len()
        invariant
            i <= cs@.len(),
            split_lines_from(cs@, i as int, cur@, lines_view(acc@)) == split_lines(cs@),
        decreases cs@.len() - i,
    {
        if cs[i] == '\n' {
            let ghost prev = lines_view(acc@);
            acc.push(cur);
            cur = Vec::new();
            proof {
                assert(lines_view(acc@) =~= prev.push(acc@[acc@.len() - 1]@));
            }
        } else {
            cur.push(cs[i]);
        }
        i = i + 1;
    }
    let ghost prev = lines_view(acc@);
    acc.push(cur);
    proof {
        assert(lines_view(acc@) =~= prev.push(acc@[acc@.len() - 1]@));
    }
    acc
}

/// Classifies one line.
#[verifier::loop_isolation(false)]
pub fn classify(l: &Vec<char>) -> (t: LineTok)
    ensures
        t@ == classify_line(l@),
{
    let n = l.len();
    if n == 0 {
        return LineTok::Blank;
    }
    if l[0] == '#' {
        return LineTok::Blank;
    }
    if l[0] == '[' {
        if n >= 3 && l[n - 1] == ']' {
            let mut j: usize = 1;
            while j < n - 1
                invariant
                    n == l@.len(),
                    3 <= n,
                    1 <= j <= n - 1,
                    forall|m: int| 1 <= m < j ==> is_name_char(l@[m]),
                decreases n - 1 - j,
            {
                if !is_name_char_exec(l[j]) {
                    proof {
                        assert(l@.subrange(1, n - 1)[j - 1] == l@[j as int]);
                        assert(!is_name_char(l@.subrange(1, n - 1)[j - 1]));
                        assert(!is_name(l@.subrange(1, n - 1)));
                    }
                    return LineTok::Bad;
                }
                j = j + 1;
            }
            proof {
                assert forall|m: int| 0 <= m < l@.subrange(1, n - 1).len() implies #[trigger]
                is_name_char(l@.subrange(1, n - 1)[m]) by {
                    assert(l@.subrange(1, n - 1)[m] == l@[m + 1]);
                }
                assert(is_name(l@.subrange(1, n - 1)));
            }
            return LineTok::Header(copy_range(l, 1, n - 1));
        }
        return LineTok::Bad;
    }
    let mut k: usize = 0;
    while k < n && is_name_char_exec(l[k])
        invariant
            n == l@.len(),
            0 <= k <= n,
            name_end(l@, 0) == name_end(l@, k as int),
        decreases n - k,
    {
        k = k + 1;
    }
    proof {
        assert(name_end(l@, k as int) == k as int);
    }
    if k > 0 && n - k >= 5 && l[k] == ' ' && l[k + 1] == '=' && l[k + 2] == ' ' && l[k + 3] == '"'
        && l[n - 1] == '"' {
        let mut m: usize = k + 4;
        while m < n - 1
            invariant
                n == l@.len(),
                k + 4 <= m <= n - 1,
                forall|j: int| k + 4 <= j < m ==> l@[j] != '"',
            decreases n - 1 - m,
        {
            if l[m] == '"' {
                proof {
                    assert(l@.subrange(k + 4, n - 1)[m - (k + 4)] == l@[m as int]);
                    assert(l@.subrange(k + 4, n - 1)[m - (k + 4)] == '"');
                    assert(!no_quote(l@.subrange(k + 4, n - 1)));
                }
                return LineTok::Bad;
            }
            m = m + 1;
        }
        proof {
            assert forall|j: int| 0 <= j < l@.subrange(k + 4, n - 1).len() implies #[trigger] l@
                .subrange(k + 4, n - 1)[j] != '"' by {
                assert(l@.subrange(k + 4, n - 1)[j] == l@[j + k + 4]);
            }
            assert(no_quote(l@.subrange(k + 4, n - 1)));
        }
        LineTok::KeyVal(copy_range(l, 0, k), copy_range(l, k + 4, n - 1))
    } else {
        LineTok::Bad
    }
}

/// Folds the lines into the document, aborting at the first malformed line.
pub fn lex(lines: &Vec<Vec<char>>) -> (r: Result<(Vec<Vec<char>>, Vec<RawEntry>), ConfigError>)
    ensures
        ({
            let spec_r = lex_from(
                lines_view(lines@),
                0,
                Seq::empty(),
                Seq::empty(),
                Seq::empty(),
            );
            match r {
                Ok(doc) => spec_r == Ok::<_, ConfigError>(
                    (lines_view(doc.0@), entries_view(doc.1@)),
                ),
                Err(e) => spec_r == Err::<(Seq<Seq<char>>, Seq<SpecEntry>), _>(e),
            }
        }),
{
    let ghost whole = lex_from(lines_view(lines@), 0, Seq::empty(), Seq::empty(), Seq::empty());
    let mut cur: Vec<char> = Vec::new();
    let mut secs: Vec<Vec<char>> = Vec::new();
    let mut ents: Vec<RawEntry> = Vec::new();
    let mut i: usize = 0;
    proof {
        assert(lines_view(secs@) =~= Seq::<Seq<char>>::empty());
        assert(entries_view(ents@) =~= Seq::<SpecEntry>::empty());
    }
    while i < lines.len()
        invariant
            i <= lines@.len(),
            whole == lex_from(lines_view(lines@), 0, Seq::empty(), Seq::empty(), Seq::empty()),
            lex_from(
                lines_view(lines@),
                i as int,
                cur@,
                lines_view(secs@),
                entries_view(ents@),
            ) == whole,
        decreases lines@.len() - i,
    {
        let ghost lv = lines_view(lines@);
        let ghost old_cur = cur@;
        let ghost old_secs = lines_view(secs@);
        let ghost old_ents = entries_view(ents@);
        proof {
            assert(lv[i as int] == lines@[i as int]@);
        }
        let tok = classify(&lines[i]);
        match tok {
            LineTok::Blank => {
                proof {
                    assert(lex_from(lv, i as int, old_cur, old_secs, old_ents) == lex_from(
                        lv,
                        i + 1,
                        old_cur,
                        old_secs,
                        old_ents,
                    ));
                }
            },
            LineTok::Header(name) => {
                let ghost pushed = name@;
                cur = copy_range(&name, 0, name.len());
                secs.push(name);
                proof {
                    assert(cur@ =~= pushed);
                    assert(lines_view(secs@) =~= old_secs.push(pushed));
                    assert(lex_from(lv, i as int, old_cur, old_secs, old_ents) == lex_from(
                        lv,
                        i + 1,
                        cur@,
                        lines_view(secs@),
                        old_ents,
                    ));
                }
            },
            LineTok::KeyVal(key, value) => {
                let ghost kv = key@;
                let ghost vv = value@;
                let section = copy_range(&cur, 0, cur.len());
                proof {
                    assert(section@ =~= cur@);
                }
                ents.push(RawEntry { section, key, value });
                proof {
                    assert(ents@[ents@.len() - 1]@ == (old_cur, kv, vv));
                    assert(entries_view(ents@) =~= old_ents.push((old_cur, kv, vv)));
                    assert(lex_from(lv, i as int, old_cur, old_secs, old_ents) == lex_from(
                        lv,
                        i + 1,
                        old_cur,
                        old_secs,
                        entries_view(ents@),
                    ));
                }
            },
            LineTok::Bad => {
                proof {
                    assert(lex_from(lv, i as int, old_cur, old_secs, old_ents) == Err::<
                        (Seq<Seq<char>>, Seq<SpecEntry>),
                        _,
                    >(ConfigError::Malformed));
                }
                return Err(ConfigError::Malformed);
            },
        }
        i = i + 1;
    }
    Ok((secs, ents))
}

/// Holds a document to the strict schema, yielding the recipient value.
pub fn validate(secs: &Vec<Vec<char>>, ents: &Vec<RawEntry>) -> (r: Result<String, ConfigError>)
    ensures
        ({
            let spec_r = validate_document(lines_view(secs@), entries_view(ents@));
            match r {
                Ok(s) => spec_r == Ok::<_, ConfigError>(s@),
                Err(e) => spec_r == Err::<Seq<char>, _>(e),
            }
        }),
{
    let hello = chars_of("hello");
    let recipient = chars_of("recipient");
    let mut i: usize = 0;
    while i < secs.len()
        invariant
            i <= secs@.len(),
            hello@ == hello_name(),
            forall|j: int| 0 <= j < i ==> sec_known(lines_view(secs@)[j]),
        decreases secs@.len() - i,
    {
        if !eq_chars(&secs[i], &hello) {
            proof {
                assert(!sec_known(lines_view(secs@)[i as int]));
            }
            return Err(ConfigError::UnknownField);
        }
        i = i + 1;
    }
    let mut j: usize = 0;
    while j < ents.len()
        invariant
            j <= ents@.len(),
            hello@ == hello_name(),
            recipient@ == recipient_name(),
            forall|m: int| 0 <= m < j ==> ent_known(entries_view(ents@)[m]),
        decreases ents@.len() - j,
    {
        if !eq_chars(&ents[j].section, &hello) || !eq_chars(&ents[j].key, &recipient) {
            proof {
                assert(!ent_known(entries_view(ents@)[j as int]));
            }
            return Err(ConfigError::UnknownField);
        }
        j = j + 1;
    }
    proof {
        assert(!doc_has_unknown(lines_view(secs@), entries_view(ents@)));
    }
    if secs.len() > 1 || ents.len() > 1 {
        return Err(ConfigError::DuplicateField);
    }
    if ents.len() == 0 {
        return Err(ConfigError::MissingField);
    }
    let value = string_of(&ents[0].value);
    proof {
        assert(entries_view(ents@)[0] == ents@[0]@);
    }
    Ok(value)
}

/// Loads a configuration from file text. The schema is strict: a malformed
/// file, an unknown field, a duplicate, or a missing required key is a fatal
/// configuration error, never silently patched over.
pub fn parse_config_str(text: &str) -> (r: Result<AssimilateConfig, ConfigError>)
    ensures
        ({
            match r {
                Ok(c) => parse_document(text@) == Ok::<_, ConfigError>(c@),
                Err(e) => parse_document(text@) == Err::<Seq<char>, _>(e),
            }
        }),
{
    let cs = chars_of(text);
    let lines = split_into_lines(&cs);
    match lex(&lines) {
        Err(e) => Err(e),
        Ok(doc) => match validate(&doc.0, &doc.1) {
            Err(e) => Err(e),
            Ok(recipient) => Ok(AssimilateConfig::with_recipient(recipient)),
        },
    }
}

/// Serializes a configuration back to file text, the exact shape the parser
/// reads. A recipient holding a quote or a line break has no representation;
/// the round-trip law is stated for the values the format can carry.
pub fn config_to_toml(c: &AssimilateConfig) -> (r: String)
    ensures
        r@ == render_document(c@),
{
    let mut out: Vec<char> = Vec::new();
    out.push('[');
    let mut hv = chars_of("hello");
    out.append(&mut hv);
    out.push(']');
    out.push('\n');
    let mut rv = chars_of("recipient");
    out.append(&mut rv);
    out.push(' ');
    out.push('=');
    out.push(' ');
    out.push('"');
    let mut vv = chars_of(c.hello.recipient.as_str());
    out.append(&mut vv);
    out.push('"');
    out.push('\n');
    proof {
        assert(out@ =~= render_document(c@));
    }
    string_of(&out)
}

/// Walking a run of non-break characters up to `e` gathers them into the
/// current line; the break at `e` (or the end of the text) finishes the line.
proof fn lemma_split_run(s: Seq<char>, i: int, e: int, cur: Seq<char>, acc: Seq<Seq<char>>)
    requires
        0 <= i <= e <= s.len(),
        forall|j: int| i <= j < e ==> s[j] != '\n',
        e == s.len() || s[e] == '\n',
    ensures
        split_lines_from(s, i, cur, acc) == if e == s.len() {
            acc.push(cur + s.subrange(i, e))
        } else {
            split_lines_from(s, e + 1, Seq::empty(), acc.push(cur + s.subrange(i, e)))
        },
    decreases e - i,
{
    if i == e {
        assert(cur + s.subrange(i, e) =~= cur);
    } else {
        lemma_split_run(s, i + 1, e, cur.push(s[i]), acc);
        assert(cur.push(s[i]) + s.subrange(i + 1, e) =~= cur + s.subrange(i, e));
    }
}

/// A run of name characters from `i` to `k`, stopped by `k`, puts the end of
/// the name at `k`.
proof fn lemma_name_end(s: Seq<char>, i: int, k: int)
    requires
        0 <= i <= k <= s.len(),
        forall|j: int| i <= j < k ==> is_name_char(s[j]),
        k == s.len() || !is_name_char(s[k]),
    ensures
        name_end(s, i) == k,
    decreases k - i,
{
    if i < k {
        lemma_name_end(s, i + 1, k);
    }
}

/// Every line produced by splitting is free of line breaks.
proof fn lemma_split_lines_no_newline(s: Seq<char>, i: int, cur: Seq<char>, acc: Seq<Seq<char>>)
    requires
        0 <= i,
        no_newline(cur),
        forall|m: int| 0 <= m < acc.len() ==> no_newline(#[trigger] acc[m]),
    ensures
        forall|m: int|
            0 <= m < split_lines_from(s, i, cur, acc).len() ==> no_newline(
                #[trigger] split_lines_from(s, i, cur, acc)[m],
            ),
    decreases s.len() - i,
{
    let acc2 = acc.push(cur);
    assert forall|m: int| 0 <= m < acc2.len() implies no_newline(#[trigger] acc2[m]) by {
        if m < acc.len() {
            assert(acc2[m] == acc[m]);
        } else {
            assert(acc2[m] == cur);
        }
    }
    if i >= s.len() {
        assert(split_lines_from(s, i, cur, acc) == acc2);
    } else if s[i] == '\n' {
        lemma_split_lines_no_newline(s, i + 1, Seq::empty(), acc2);
        let inner = split_lines_from(s, i + 1, Seq::empty(), acc2);
        assert(split_lines_from(s, i, cur, acc) == inner);
        assert forall|m: int| 0 <= m < inner.len() implies no_newline(
            #[trigger] split_lines_from(s, i, cur, acc)[m],
        ) by {
            assert(split_lines_from(s, i, cur, acc)[m] == inner[m]);
        }
    } else {
        assert(no_newline(cur.push(s[i])));
        lemma_split_lines_no_newline(s, i + 1, cur.push(s[i]), acc);
        let inner = split_lines_from(s, i + 1, cur.push(s[i]), acc);
        assert(split_lines_from(s, i, cur, acc) == inner);
        assert forall|m: int| 0 <= m < inner.len() implies no_newline(
            #[trigger] split_lines_from(s, i, cur, acc)[m],
        ) by {
            assert(split_lines_from(s, i, cur, acc)[m] == inner[m]);
        }
    }
}

/// A value has no representation problem: it came from between the quotes of
/// a well-formed line, so it holds no quote and no line break.
proof fn lemma_lex_values_clean(
    lines: Seq<Seq<char>>,
    i: int,
    cur: Seq<char>,
    secs: Seq<Seq<char>>,
    ents: Seq<SpecEntry>,
    out_secs: Seq<Seq<char>>,
    out_ents: Seq<SpecEntry>,
)
    requires
        0 <= i,
        forall|m: int| 0 <= m < lines.len() ==> no_newline(#[trigger] lines[m]),
        forall|m: int|
            0 <= m < ents.len() ==> no_quote(#[trigger] ents[m].2) && no_newline(ents[m].2),
        lex_from(lines, i, cur, secs, ents) == Ok::<_, ConfigError>((out_secs, out_ents)),
    ensures
        forall|m: int|
            0 <= m < out_ents.len() ==> no_quote(#[trigger] out_ents[m].2) && no_newline(
                out_ents[m].2,
            ),
    decreases lines.len() - i,
{
    if i >= lines.len() {
    } else {
        let l = lines[i];
        match classify_line(l) {
            LineKind::Blank => {
                lemma_lex_values_clean(lines, i + 1, cur, secs, ents, out_secs, out_ents);
            },
            LineKind::Header(name) => {
                lemma_lex_values_clean(
                    lines,
                    i + 1,
                    name,
                    secs.push(name),
                    ents,
                    out_secs,
                    out_ents,
                );
            },
            LineKind::KeyVal(k, v) => {
                let ke = name_end(l, 0);
                assert(v == l.subrange(ke + 4, l.len() - 1));
                assert(no_quote(v));
                assert forall|j: int| 0 <= j < v.len() implies #[trigger] v[j] != '\n' by {
                    assert(v[j] == l[j + ke + 4]);
                }
                let ents2 = ents.push((cur, k, v));
                assert(forall|m: int|
                    0 <= m < ents2.len() ==> no_quote(#[trigger] ents2[m].2) && no_newline(
                        ents2[m].2,
                    ));
                lemma_lex_values_clean(lines, i + 1, cur, secs, ents2, out_secs, out_ents);
            },
            LineKind::Bad => {},
        }
    }
}

/// Serializing a representable recipient and loading the result gives that
/// recipient back: store-then-load is the identity on what the format can
/// carry.
pub proof fn lemma_render_parses(v: Seq<char>)
    requires
        no_quote(v),
        no_newline(v),
    ensures
        parse_document(render_document(v)) == Ok::<_, ConfigError>(v),
{
    reveal_strlit("hello");
    reveal_strlit("recipient");
    let doc = render_document(v);
    let h = header_line();
    let kv = kv_line(v);
    assert(h.len() == 7);
    assert(kv.len() == 14 + v.len());
    assert(doc.len() == 23 + v.len());

    // Split into the three lines: the header, the binding, the empty tail.
    assert forall|j: int| 0 <= j < 7 implies doc[j] != '\n' by {
        assert(doc[j] == h[j]);
        if 1 <= j < 6 {
            assert(h[j] == hello_name()[j - 1]);
        }
    }
    assert(doc[7] == '\n');
    lemma_split_run(doc, 0, 7, Seq::empty(), Seq::empty());
    assert(Seq::<char>::empty() + doc.subrange(0, 7) =~= h);

    let e2 = 8 + kv.len() as int;
    assert forall|j: int| 8 <= j < e2 implies doc[j] != '\n' by {
        assert(doc[j] == kv[j - 8]);
        let m = j - 8;
        if m < 9 {
            assert(kv[m] == recipient_name()[m]);
        } else if 13 <= m < 13 + v.len() {
            assert(kv[m] == v[m - 13]);
        }
    }
    assert(doc[e2] == '\n');
    lemma_split_run(doc, 8, e2, Seq::empty(), seq![h]);
    assert(Seq::<char>::empty() + doc.subrange(8, e2) =~= kv);
    lemma_split_run(doc, e2 + 1, doc.len() as int, Seq::empty(), seq![h, kv]);
    assert(Seq::<char>::empty() + doc.subrange(e2 + 1, doc.len() as int) =~= Seq::<char>::empty());
    let lines = split_lines(doc);
    assert(lines =~= seq![h, kv, Seq::<char>::empty()]);

    // The header line opens the `hello` section.
    assert(h[0] == '[');
    assert(h[6] == ']');
    assert(h.subrange(1, 6) =~= hello_name());
    assert forall|j: int| 0 <= j < 5 implies is_name_char(#[trigger] hello_name()[j]) by {}
    assert(is_name(h.subrange(1, 6)));
    assert(classify_line(h) == LineKind::Header(hello_name()));

    // The binding line binds `recipient` to `v`.
    assert(kv[0] == 'r');
    assert forall|j: int| 0 <= j < 9 implies is_name_char(#[trigger] kv[j]) by {
        assert(kv[j] == recipient_name()[j]);
    }
    assert(!is_name_char(kv[9]));
    lemma_name_end(kv, 0, 9);
    assert(kv[9] == ' ' && kv[10] == '=' && kv[11] == ' ' && kv[12] == '"');
    assert(kv[kv.len() - 1] == '"');
    assert forall|j: int| 0 <= j < kv.subrange(13, kv.len() - 1).len() implies #[trigger] kv
        .subrange(13, kv.len() - 1)[j] != '"' by {
        assert(kv.subrange(13, kv.len() - 1)[j] == v[j]);
    }
    assert(kv.subrange(0, 9) =~= recipient_name());
    assert(kv.subrange(13, kv.len() - 1) =~= v);
    assert(classify_line(kv) == LineKind::KeyVal(recipient_name(), v));

    assert(classify_line(Seq::<char>::empty()) == LineKind::Blank);

    // Fold the three lines into the document.
    let secs = seq![hello_name()];
    let ents = seq![(hello_name(), recipient_name(), v)];
    assert(lex_from(lines, 0, Seq::empty(), Seq::empty(), Seq::empty()) == lex_from(
        lines,
        1,
        hello_name(),
        Seq::<Seq<char>>::empty().push(hello_name()),
        Seq::empty(),
    ));
    assert(Seq::<Seq<char>>::empty().push(hello_name()) =~= secs);
    assert(lex_from(lines, 1, hello_name(), secs, Seq::empty()) == lex_from(
        lines,
        2,
        hello_name(),
        secs,
        Seq::<SpecEntry>::empty().push((hello_name(), recipient_name(), v)),
    ));
    assert(Seq::<SpecEntry>::empty().push((hello_name(), recipient_name(), v)) =~= ents);
    assert(lex_from(lines, 2, hello_name(), secs, ents) == lex_from(
        lines,
        3,
        hello_name(),
        secs,
        ents,
    ));
    assert(lex_from(lines, 3, hello_name(), secs, ents) == Ok::<_, ConfigError>((secs, ents)));
    assert(lex_document(doc) == Ok::<_, ConfigError>((secs, ents)));

    // The document meets the schema and yields the recipient back.
    assert(!doc_has_unknown(secs, ents));
    assert(validate_document(secs, ents) == Ok::<_, ConfigError>(v));
}

/// Loading then re-serializing preserves values: whatever recipient a file
/// yields, serializing it writes a file that loads to the same recipient.
pub proof fn lemma_load_store_roundtrip(text: Seq<char>, v: Seq<char>)
    requires
        parse_document(text) == Ok::<_, ConfigError>(v),
    ensures
        parse_document(render_document(v)) == Ok::<_, ConfigError>(v),
{
    let lexed = lex_document(text);
    match lexed {
        Ok(doc) => {
            let secs = doc.0;
            let ents = doc.1;
            assert(validate_document(secs, ents) == Ok::<_, ConfigError>(v));
            assert(ents.len() == 1 && v == ents[0].2);
            lemma_split_lines_no_newline(text, 0, Seq::empty(), Seq::empty());
            lemma_lex_values_clean(
                split_lines(text),
                0,
                Seq::empty(),
                Seq::empty(),
                Seq::empty(),
                secs,
                ents,
            );
            assert(no_quote(v) && no_newline(v));
            lemma_render_parses(v);
        },
        Err(_) => {},
    }
}

/// A document mentioning a section or key outside the schema never loads:
/// the unknown field is a fatal configuration error.
pub proof fn lemma_unknown_field_rejected(
    text: Seq<char>,
    secs: Seq<Seq<char>>,
    ents: Seq<SpecEntry>,
)
    requires
        lex_document(text) == Ok::<_, ConfigError>((secs, ents)),
        doc_has_unknown(secs, ents),
    ensures
        parse_document(text) == Err::<Seq<char>, _>(ConfigError::UnknownField),
{
}

} // verus!
