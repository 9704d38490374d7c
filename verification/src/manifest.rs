//! The descriptor parser: reads a package's manifest file (`mod_info.json`)
//! into a structured entry.
//!
//! The accepted format is a tolerant, comment-bearing JSON object:
//! - `//` line comments and `/* ... */` block comments are trivia,
//! - object keys may be quoted (with `"` or `'`) or bare,
//! - string values run to the next matching quote, with no escape sequences,
//! - non-string values (numbers, booleans, nested arrays and objects) are
//!   accepted and skipped structurally,
//! - members are separated by commas, with a trailing comma tolerated; when a
//!   key occurs twice, the first occurrence wins.
//!
//! Required keys are `id`, `name`, `version` and `gameVersion`; `author`,
//! `description` and `versionChecker` are optional. `enabled`,
//! `remote_version` and `highlighted` are never read from the manifest.
//!
//! The whole grammar is stated as spec functions over the text's character
//! sequence; the executable parser is proved to return exactly what they say.

use vstd::prelude::*;

use crate::entry::{EntryView, PackageEntry};

verus! {

/// Which required manifest key was absent.
#[derive(Clone, Copy, PartialEq, Eq, Structural, Debug)]
pub enum MissingKey {
    Id,
    Name,
    Version,
    GameVersion,
    /// The enabled-set file's one required key.
    EnabledMods,
}

/// Why a manifest failed to parse.
#[derive(Clone, Copy, PartialEq, Eq, Structural, Debug)]
pub enum ParseError {
    /// The text is not a well-formed manifest object.
    Malformed,
    /// The object parsed, but a required key is absent.
    MissingField(MissingKey),
}

/// Where trivia skipping stands: in plain code, inside a `//` comment, or
/// inside a `/* */` comment.
#[derive(Clone, Copy, PartialEq, Eq, Structural)]
pub enum TriviaMode {
    Code,
    Line,
    Block,
}

pub open spec fn is_space(c: char) -> bool {
    c == ' ' || c == '\t' || c == '\n' || c == '\r'
}

pub open spec fn is_quote(c: char) -> bool {
    c == '"' || c == '\''
}

/// Characters that may stand in a bare (unquoted) key or scalar value.
pub open spec fn is_bare_char(c: char) -> bool {
    !is_space(c) && c != '{' && c != '}' && c != '[' && c != ']' && c != ',' && c != ':'
        && !is_quote(c) && c != '/'
}

/// The index of the first non-trivia character at or after `i`, starting in
/// the given mode; the text's length when trivia runs to the end.
pub open spec fn spec_skip_trivia_from(s: Seq<char>, i: int, mode: TriviaMode) -> int
    decreases s.len() - i,
{
    if i >= s.len() {
        s.len() as int
    } else {
        match mode {
            TriviaMode::Code => {
                if is_space(s[i]) {
                    spec_skip_trivia_from(s, i + 1, TriviaMode::Code)
                } else if s[i] == '/' && i + 1 < s.len() && s[i + 1] == '/' {
                    spec_skip_trivia_from(s, i + 2, TriviaMode::Line)
                } else if s[i] == '/' && i + 1 < s.len() && s[i + 1] == '*' {
                    spec_skip_trivia_from(s, i + 2, TriviaMode::Block)
                } else {
                    i
                }
            },
            TriviaMode::Line => {
                if s[i] == '\n' {
                    spec_skip_trivia_from(s, i + 1, TriviaMode::Code)
                } else {
                    spec_skip_trivia_from(s, i + 1, TriviaMode::Line)
                }
            },
            TriviaMode::Block => {
                if s[i] == '*' && i + 1 < s.len() && s[i + 1] == '/' {
                    spec_skip_trivia_from(s, i + 2, TriviaMode::Code)
                } else {
                    spec_skip_trivia_from(s, i + 1, TriviaMode::Block)
                }
            },
        }
    }
}

/// The index of the first character after whitespace and comments at `i`.
pub open spec fn spec_skip_trivia(s: Seq<char>, i: int) -> int {
    spec_skip_trivia_from(s, i, TriviaMode::Code)
}

/// The index of the closing quote `q` at or after `i`, if any.
pub open spec fn spec_string_end(s: Seq<char>, i: int, q: char) -> Option<int>
    decreases s.len() - i,
{
    if i >= s.len() {
        None
    } else if s[i] == q {
        Some(i)
    } else {
        spec_string_end(s, i + 1, q)
    }
}

/// The index of the first character at or after `i` that cannot stand in a
/// bare token; the text's length when the token runs to the end.
pub open spec fn spec_bare_end(s: Seq<char>, i: int) -> int
    decreases s.len() - i,
{
    if i >= s.len() {
        s.len() as int
    } else if is_bare_char(s[i]) {
        spec_bare_end(s, i + 1)
    } else {
        i
    }
}

/// Skips the remainder of a nested value whose `depth` brackets are still
/// open at `i`: strings and comments are passed over whole, brackets adjust
/// the depth, and the result is the index just past the bracket that closes
/// the outermost one. `None` when the text ends first.
pub open spec fn spec_skip_balanced(s: Seq<char>, i: int, depth: nat) -> Option<int>
    decreases s.len() - i,
{
    if i >= s.len() {
        None
    } else {
        let c = s[i];
        if c == '{' || c == '[' {
            spec_skip_balanced(s, i + 1, depth + 1)
        } else if c == '}' || c == ']' {
            if depth == 1 {
                Some(i + 1)
            } else {
                spec_skip_balanced(s, i + 1, (depth - 1) as nat)
            }
        } else if is_quote(c) {
            match spec_string_end(s, i + 1, c) {
                Some(j) => if i < j + 1 && j + 1 <= s.len() {
                    spec_skip_balanced(s, j + 1, depth)
                } else {
                    None
                },
                None => None,
            }
        } else if c == '/' && i + 1 < s.len() && (s[i + 1] == '/' || s[i + 1] == '*') {
            let t = spec_skip_trivia(s, i);
            if i < t && t <= s.len() {
                spec_skip_balanced(s, t, depth)
            } else {
                None
            }
        } else {
            spec_skip_balanced(s, i + 1, depth)
        }
    }
}

/// The index just past the value starting at `i`; `None` when no value
/// starts there or it is unterminated.
pub open spec fn spec_skip_value(s: Seq<char>, i: int) -> Option<int> {
    if 0 <= i < s.len() {
        let c = s[i];
        if is_quote(c) {
            match spec_string_end(s, i + 1, c) {
                Some(j) => Some(j + 1),
                None => None,
            }
        } else if c == '{' || c == '[' {
            spec_skip_balanced(s, i + 1, 1)
        } else if is_bare_char(c) {
            Some(spec_bare_end(s, i + 1))
        } else {
            None
        }
    } else {
        None
    }
}

/// A parsed member: its key and, when the value was a string, that string.
pub type FieldV = (Seq<char>, Option<Seq<char>>);

/// Parses the members of the manifest object from `i` (already past leading
/// trivia) to its closing `}`; `acc` holds the members already read. `Some`
/// gives the index just past the `}` and all members in order.
pub open spec fn spec_members(s: Seq<char>, i: int, acc: Seq<FieldV>) -> Option<
    (int, Seq<FieldV>),
>
    decreases s.len() - i,
{
    if i < 0 || i >= s.len() {
        None
    } else if s[i] == '}' {
        Some((i + 1, acc))
    } else {
        let key_parse: Option<(Seq<char>, int)> = if is_quote(s[i]) {
            match spec_string_end(s, i + 1, s[i]) {
                Some(j) => Some((s.subrange(i + 1, j), j + 1)),
                None => None,
            }
        } else if is_bare_char(s[i]) {
            Some((s.subrange(i, spec_bare_end(s, i + 1)), spec_bare_end(s, i + 1)))
        } else {
            None
        };
        match key_parse {
            None => None,
            Some((key, ak)) => {
                let ci = spec_skip_trivia(s, ak);
                if !(0 <= ci < s.len() && s[ci] == ':') {
                    None
                } else {
                    let vi = spec_skip_trivia(s, ci + 1);
                    let vparse: Option<(Option<Seq<char>>, int)> = if 0 <= vi < s.len()
                        && is_quote(s[vi]) {
                        match spec_string_end(s, vi + 1, s[vi]) {
                            Some(j) => Some((Some(s.subrange(vi + 1, j)), j + 1)),
                            None => None,
                        }
                    } else {
                        match spec_skip_value(s, vi) {
                            Some(e) => Some((None, e)),
                            None => None,
                        }
                    };
                    match vparse {
                        None => None,
                        Some((sv, ve)) => {
                            let ti = spec_skip_trivia(s, ve);
                            let ni = if 0 <= ti < s.len() && s[ti] == ',' {
                                spec_skip_trivia(s, ti + 1)
                            } else {
                                ti
                            };
                            if i < ni && ni <= s.len() {
                                spec_members(s, ni, acc.push((key, sv)))
                            } else {
                                None
                            }
                        },
                    }
                }
            },
        }
    }
}

/// The members of the manifest text as a whole: leading trivia, one object,
/// trailing trivia, nothing else.
pub open spec fn spec_manifest_fields(s: Seq<char>) -> Option<Seq<FieldV>> {
    let i0 = spec_skip_trivia(s, 0);
    if 0 <= i0 < s.len() && s[i0] == '{' {
        match spec_members(s, spec_skip_trivia(s, i0 + 1), Seq::empty()) {
            Some((e, fields)) => if spec_skip_trivia(s, e) == s.len() {
                Some(fields)
            } else {
                None
            },
            None => None,
        }
    } else {
        None
    }
}

/// The first member with the given key: `None` when absent, `Some(None)`
/// when present with a non-string value, `Some(Some(v))` for a string value.
pub open spec fn spec_field(fields: Seq<FieldV>, key: Seq<char>) -> Option<Option<Seq<char>>>
    decreases fields.len(),
{
    if fields.len() == 0 {
        None
    } else if fields[0].0 == key {
        Some(fields[0].1)
    } else {
        spec_field(fields.drop_first(), key)
    }
}

/// A required string field: absent is `MissingField`, a non-string value is
/// `Malformed`.
pub open spec fn spec_req(fields: Seq<FieldV>, key: Seq<char>, mk: MissingKey) -> Result<
    Seq<char>,
    ParseError,
> {
    match spec_field(fields, key) {
        None => Err(ParseError::MissingField(mk)),
        Some(None) => Err(ParseError::Malformed),
        Some(Some(v)) => Ok(v),
    }
}

/// An optional string field: absent is fine, a non-string value is
/// `Malformed`.
pub open spec fn spec_opt(fields: Seq<FieldV>, key: Seq<char>) -> Result<
    Option<Seq<char>>,
    ParseError,
> {
    match spec_field(fields, key) {
        None => Ok(None),
        Some(None) => Err(ParseError::Malformed),
        Some(Some(v)) => Ok(Some(v)),
    }
}

/// The entry the manifest members determine, rooted at `path`. `enabled`,
/// `remote_version` and `highlighted` are the caller's to compute and start
/// out false and absent.
pub open spec fn spec_entry_of_fields(fields: Seq<FieldV>, path: Seq<char>) -> Result<
    EntryView,
    ParseError,
> {
    match spec_req(fields, "id"@, MissingKey::Id) {
        Err(e) => Err(e),
        Ok(id) => match spec_req(fields, "name"@, MissingKey::Name) {
            Err(e) => Err(e),
            Ok(name) => match spec_req(fields, "version"@, MissingKey::Version) {
                Err(e) => Err(e),
                Ok(version) => match spec_req(fields, "gameVersion"@, MissingKey::GameVersion) {
                    Err(e) => Err(e),
                    Ok(game_version) => match spec_opt(fields, "author"@) {
                        Err(e) => Err(e),
                        Ok(author) => match spec_opt(fields, "description"@) {
                            Err(e) => Err(e),
                            Ok(description) => match spec_opt(fields, "versionChecker"@) {
                                Err(e) => Err(e),
                                Ok(checker) => Ok(
                                    EntryView {
                                        id: id,
                                        name: name,
                                        author: match author {
                                            Some(a) => a,
                                            None => Seq::empty(),
                                        },
                                        local_version: version,
                                        game_version: game_version,
                                        description: match description {
                                            Some(d) => d,
                                            None => Seq::empty(),
                                        },
                                        enabled: false,
                                        path: path,
                                        remote_version: None,
                                        version_checker_url: checker,
                                        highlighted: false,
                                    },
                                ),
                            },
                        },
                    },
                },
            },
        },
    }
}

/// What parsing the manifest text `s` for a package rooted at `path` yields.
pub open spec fn spec_parse_manifest(s: Seq<char>, path: Seq<char>) -> Result<
    EntryView,
    ParseError,
> {
    match spec_manifest_fields(s) {
        None => Err(ParseError::Malformed),
        Some(fields) => spec_entry_of_fields(fields, path),
    }
}

pub(crate) fn skip_trivia(s: &str, n: usize, i: usize) -> (r: usize)
    requires
        n == s@.len(),
        i <= n,
    ensures
        r == spec_skip_trivia(s@, i as int),
        i <= r <= n,
{
    let mut cur: usize = i;
    let mut mode = TriviaMode::Code;
    loop
        invariant
            n == s@.len(),
            i <= cur <= n,
            spec_skip_trivia(s@, i as int) == spec_skip_trivia_from(s@, cur as int, mode),
        decreases n - cur,
    {
        if cur >= n {
            return n;
        }
        let c = s.get_char(cur);
        match mode {
            TriviaMode::Code => {
                if c == ' ' || c == '\t' || c == '\n' || c == '\r' {
                    cur = cur + 1;
                } else if c == '/' && cur + 1 < n && s.get_char(cur + 1) == '/' {
                    cur = cur + 2;
                    mode = TriviaMode::Line;
                } else if c == '/' && cur + 1 < n && s.get_char(cur + 1) == '*' {
                    cur = cur + 2;
                    mode = TriviaMode::Block;
                } else {
                    return cur;
                }
            },
            TriviaMode::Line => {
                if c == '\n' {
                    mode = TriviaMode::Code;
                }
                cur = cur + 1;
            },
            TriviaMode::Block => {
                if c == '*' && cur + 1 < n && s.get_char(cur + 1) == '/' {
                    cur = cur + 2;
                    mode = TriviaMode::Code;
                } else {
                    cur = cur + 1;
                }
            },
        }
    }
}

pub(crate) fn string_end(s: &str, n: usize, i: usize, q: char) -> (r: Option<usize>)
    requires
        n == s@.len(),
        i <= n,
    ensures
        match r {
            Some(j) => spec_string_end(s@, i as int, q) == Some(j as int) && i <= j < n,
            None => spec_string_end(s@, i as int, q) is None,
        },
{
    let mut cur: usize = i;
    loop
        invariant
            n == s@.len(),
            i <= cur <= n,
            spec_string_end(s@, i as int, q) == spec_string_end(s@, cur as int, q),
        decreases n - cur,
    {
        if cur >= n {
            return None;
        }
        if s.get_char(cur) == q {
            return Some(cur);
        }
        cur = cur + 1;
    }
}

pub(crate) fn is_bare_char_exec(c: char) -> (r: bool)
    ensures
        r == is_bare_char(c),
{
    !(c == ' ' || c == '\t' || c == '\n' || c == '\r') && c != '{' && c != '}' && c != '['
        && c != ']' && c != ',' && c != ':' && c != '"' && c != '\'' && c != '/'
}

pub(crate) fn bare_end(s: &str, n: usize, i: usize) -> (r: usize)
    requires
        n == s@.len(),
        i <= n,
    ensures
        r == spec_bare_end(s@, i as int),
        i <= r <= n,
{
    let mut cur: usize = i;
    loop
        invariant
            n == s@.len(),
            i <= cur <= n,
            spec_bare_end(s@, i as int) == spec_bare_end(s@, cur as int),
        decreases n - cur,
    {
        if cur >= n {
            return n;
        }
        if is_bare_char_exec(s.get_char(cur)) {
            cur = cur + 1;
        } else {
            return cur;
        }
    }
}

pub(crate) fn skip_balanced(s: &str, n: usize, i: usize, depth: usize) -> (r: Option<usize>)
    requires
        n == s@.len(),
        1 <= depth <= i <= n,
    ensures
        match r {
            Some(e) => spec_skip_balanced(s@, i as int, depth as nat) == Some(e as int) && i < e
                <= n,
            None => spec_skip_balanced(s@, i as int, depth as nat) is None,
        },
{
    let mut cur: usize = i;
    let mut d: usize = depth;
    loop
        invariant
            n == s@.len(),
            i <= cur <= n,
            1 <= d <= cur,
            spec_skip_balanced(s@, i as int, depth as nat) == spec_skip_balanced(
                s@,
                cur as int,
                d as nat,
            ),
        decreases n - cur,
    {
        if cur >= n {
            return None;
        }
        let c = s.get_char(cur);
        if c == '{' || c == '[' {
            cur = cur + 1;
            d = d + 1;
        } else if c == '}' || c == ']' {
            if d == 1 {
                return Some(cur + 1);
            }
            cur = cur + 1;
            d = d - 1;
        } else if c == '"' || c == '\'' {
            match string_end(s, n, cur + 1, c) {
                Some(j) => {
                    cur = j + 1;
                },
                None => {
                    return None;
                },
            }
        } else if c == '/' && cur + 1 < n && (s.get_char(cur + 1) == '/' || s.get_char(cur + 1)
            == '*') {
            let t = skip_trivia(s, n, cur);
            if t <= cur {
                return None;
            }
            cur = t;
        } else {
            cur = cur + 1;
        }
    }
}

pub(crate) fn skip_value(s: &str, n: usize, i: usize) -> (r: Option<usize>)
    requires
        n == s@.len(),
        i <= n,
    ensures
        match r {
            Some(e) => spec_skip_value(s@, i as int) == Some(e as int) && i < e <= n,
            None => spec_skip_value(s@, i as int) is None,
        },
{
    if i >= n {
        return None;
    }
    let c = s.get_char(i);
    if c == '"' || c == '\'' {
        match string_end(s, n, i + 1, c) {
            Some(j) => Some(j + 1),
            None => None,
        }
    } else if c == '{' || c == '[' {
        skip_balanced(s, n, i + 1, 1)
    } else if is_bare_char_exec(c) {
        Some(bare_end(s, n, i + 1))
    } else {
        None
    }
}

/// One parsed member as the executable parser holds it.
pub struct RawField {
    pub key: String,
    pub sval: Option<String>,
}

impl View for RawField {
    type V = FieldV;

    open spec fn view(&self) -> FieldV {
        (
            self.key@,
            match self.sval {
                Some(v) => Some(v@),
                None => None,
            },
        )
    }
}

/// The members a field vector stands for.
pub open spec fn fields_view(v: Seq<RawField>) -> Seq<FieldV> {
    Seq::new(v.len(), |k: int| v[k]@)
}

fn members(s: &str, n: usize, i: usize) -> (r: Option<(usize, Vec<RawField>)>)
    requires
        n == s@.len(),
        i <= n,
    ensures
        match r {
            Some((e, fields)) => spec_members(s@, i as int, Seq::empty()) == Some(
                (e as int, fields_view(fields@)),
            ) && e <= n,
            None => spec_members(s@, i as int, Seq::empty()) is None,
        },
{
    let mut cur: usize = i;
    let mut acc: Vec<RawField> = Vec::new();
    proof {
        assert(fields_view(acc@) =~= Seq::<FieldV>::empty());
    }
    loop
        invariant
            n == s@.len(),
            i <= cur <= n,
            spec_members(s@, i as int, Seq::empty()) == spec_members(
                s@,
                cur as int,
                fields_view(acc@),
            ),
        decreases n - cur,
    {
        if cur >= n {
            return None;
        }
        let c = s.get_char(cur);
        if c == '}' {
            return Some((cur + 1, acc));
        }
        // key
        let key: String;
        let ak: usize;
        if c == '"' || c == '\'' {
            match string_end(s, n, cur + 1, c) {
                Some(j) => {
                    key = s.substring_char(cur + 1, j).to_owned();
                    ak = j + 1;
                },
                None => {
                    return None;
                },
            }
        } else if is_bare_char_exec(c) {
            let j = bare_end(s, n, cur + 1);
            key = s.substring_char(cur, j).to_owned();
            ak = j;
        } else {
            return None;
        }
        let ci = skip_trivia(s, n, ak);
        if !(ci < n && s.get_char(ci) == ':') {
            return None;
        }
        let vi = skip_trivia(s, n, ci + 1);
        // value
        let sv: Option<String>;
        let ve: usize;
        if vi < n && (s.get_char(vi) == '"' || s.get_char(vi) == '\'') {
            let q = s.get_char(vi);
            match string_end(s, n, vi + 1, q) {
                Some(j) => {
                    sv = Some(s.substring_char(vi + 1, j).to_owned());
                    ve = j + 1;
                },
                None => {
                    return None;
                },
            }
        } else {
            match skip_value(s, n, vi) {
                Some(e) => {
                    sv = None;
                    ve = e;
                },
                None => {
                    return None;
                },
            }
        }
        let ti = skip_trivia(s, n, ve);
        let ni = if ti < n && s.get_char(ti) == ',' {
            skip_trivia(s, n, ti + 1)
        } else {
            ti
        };
        if !(cur < ni && ni <= n) {
            return None;
        }
        let ghost old_acc = acc@;
        acc.push(RawField { key, sval: sv });
        proof {
            assert(fields_view(acc@) =~= fields_view(old_acc).push(acc@[old_acc.len() as int]@));
        }
        cur = ni;
    }
}

fn field(fields: &Vec<RawField>, key: &String) -> (r: Option<Option<String>>)
    ensures
        match r {
            None => spec_field(fields_view(fields@), key@) is None,
            Some(None) => spec_field(fields_view(fields@), key@) == Some(
                None::<Seq<char>>,
            ),
            Some(Some(v)) => spec_field(fields_view(fields@), key@) == Some(Some(v@)),
        },
{
    let ghost all = fields_view(fields@);
    proof {
        assert(all.skip(0) =~= all);
    }
    let mut k: usize = 0;
    while k < fields.len()
        invariant
            k <= fields.len(),
            all == fields_view(fields@),
            spec_field(all, key@) == spec_field(all.skip(k as int), key@),
        decreases fields.len() - k,
    {
        proof {
            assert(all.skip(k as int)[0] == fields@[k as int]@);
            assert(all.skip(k as int).drop_first() =~= all.skip(k as int + 1));
        }
        let keq = fields[k].key.eq(key);
        if keq {
            return match &fields[k].sval {
                Some(v) => Some(Some(v.clone())),
                None => Some(None),
            };
        }
        k = k + 1;
    }
    proof {
        assert(all.skip(fields.len() as int) =~= Seq::<FieldV>::empty());
    }
    None
}

fn required(fields: &Vec<RawField>, key: &String, mk: MissingKey) -> (r: Result<
    String,
    ParseError,
>)
    ensures
        match r {
            Ok(v) => spec_req(fields_view(fields@), key@, mk) == Ok::<Seq<char>, ParseError>(v@),
            Err(e) => spec_req(fields_view(fields@), key@, mk) == Err::<Seq<char>, ParseError>(e),
        },
{
    match field(fields, key) {
        None => Err(ParseError::MissingField(mk)),
        Some(None) => Err(ParseError::Malformed),
        Some(Some(v)) => Ok(v),
    }
}

fn optional(fields: &Vec<RawField>, key: &String) -> (r: Result<Option<String>, ParseError>)
    ensures
        match r {
            Ok(None) => spec_opt(fields_view(fields@), key@) == Ok::<
                Option<Seq<char>>,
                ParseError,
            >(None),
            Ok(Some(v)) => spec_opt(fields_view(fields@), key@) == Ok::<
                Option<Seq<char>>,
                ParseError,
            >(Some(v@)),
            Err(e) => spec_opt(fields_view(fields@), key@) == Err::<
                Option<Seq<char>>,
                ParseError,
            >(e),
        },
{
    match field(fields, key) {
        None => Ok(None),
        Some(None) => Err(ParseError::Malformed),
        Some(Some(v)) => Ok(Some(v)),
    }
}

/// Parses a manifest text into the entry for a package rooted at `path`.
///
/// Returns exactly what the spec-level grammar says of the text: the entry
/// whose manifest-determined fields come from the object's members, or
/// `Malformed` when the text is not one well-formed object, or
/// `MissingField` naming the first absent required key.
pub fn parse_manifest(text: &str, path: &str) -> (r: Result<PackageEntry, ParseError>)
    ensures
        match r {
            Ok(e) => spec_parse_manifest(text@, path@) == Ok::<EntryView, ParseError>(e@),
            Err(pe) => spec_parse_manifest(text@, path@) == Err::<EntryView, ParseError>(pe),
        },
{
    let n = text.unicode_len();
    let i0 = skip_trivia(text, n, 0);
    if !(i0 < n && text.get_char(i0) == '{') {
        return Err(ParseError::Malformed);
    }
    let i1 = skip_trivia(text, n, i0 + 1);
    let (e, fields) = match members(text, n, i1) {
        Some(r) => r,
        None => {
            return Err(ParseError::Malformed);
        },
    };
    if skip_trivia(text, n, e) != n {
        return Err(ParseError::Malformed);
    }
    let id = match required(&fields, &String::from_str("id"), MissingKey::Id) {
        Ok(v) => v,
        Err(pe) => {
            return Err(pe);
        },
    };
    let name = match required(&fields, &String::from_str("name"), MissingKey::Name) {
        Ok(v) => v,
        Err(pe) => {
            return Err(pe);
        },
    };
    let version = match required(&fields, &String::from_str("version"), MissingKey::Version) {
        Ok(v) => v,
        Err(pe) => {
            return Err(pe);
        },
    };
    let game_version = match required(
        &fields,
        &String::from_str("gameVersion"),
        MissingKey::GameVersion,
    ) {
        Ok(v) => v,
        Err(pe) => {
            return Err(pe);
        },
    };
    let author = match optional(&fields, &String::from_str("author")) {
        Ok(v) => v,
        Err(pe) => {
            return Err(pe);
        },
    };
    let description = match optional(&fields, &String::from_str("description")) {
        Ok(v) => v,
        Err(pe) => {
            return Err(pe);
        },
    };
    let checker = match optional(&fields, &String::from_str("versionChecker")) {
        Ok(v) => v,
        Err(pe) => {
            return Err(pe);
        },
    };
    let entry = PackageEntry {
        id,
        name,
        author: match author {
            Some(a) => a,
            None => String::new(),
        },
        local_version: version,
        game_version,
        description: match description {
            Some(d) => d,
            None => String::new(),
        },
        enabled: false,
        path: path.to_owned(),
        remote_version: None,
        version_checker_url: checker,
        highlighted: false,
    };
    proof {
        reveal_strlit("id");
        reveal_strlit("name");
        reveal_strlit("version");
        reveal_strlit("gameVersion");
        reveal_strlit("author");
        reveal_strlit("description");
        reveal_strlit("versionChecker");
        assert(spec_parse_manifest(text@, path@) matches Ok(ev) && entry@ =~= ev);
    }
    Ok(entry)
}

} // verus!
