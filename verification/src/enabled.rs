//! The enabled-set file (`mods/enabled_mods.json`): which package ids are
//! active. It is a JSON object `{"enabledMods": [<id>, ...]}`, rewritten in
//! full on every enable/disable action; ordering within the array carries no
//! meaning. Reading tolerates the same trivia as the manifest parser; writing
//! produces the canonical form.

use vstd::prelude::*;

use crate::manifest::{
    bare_end, is_bare_char, is_bare_char_exec, is_quote, skip_trivia, skip_value, spec_bare_end,
    spec_skip_trivia, spec_skip_trivia_from, spec_skip_value, spec_string_end, string_end,
    MissingKey, ParseError,
};

verus! {

/// The id sequences a string vector stands for.
pub open spec fn strs_view(v: Seq<String>) -> Seq<Seq<char>> {
    Seq::new(v.len(), |k: int| v[k]@)
}

/// Parses the items of a string array from `i` (just past the `[` and
/// trivia) to its closing `]`; `acc` holds the items already read.
pub open spec fn spec_string_items(s: Seq<char>, i: int, acc: Seq<Seq<char>>) -> Option<
    (int, Seq<Seq<char>>),
>
    decreases s.len() - i,
{
    if i < 0 || i >= s.len() {
        None
    } else if s[i] == ']' {
        Some((i + 1, acc))
    } else if is_quote(s[i]) {
        match spec_string_end(s, i + 1, s[i]) {
            Some(j) => {
                let ti = spec_skip_trivia(s, j + 1);
                let ni = if 0 <= ti < s.len() && s[ti] == ',' {
                    spec_skip_trivia(s, ti + 1)
                } else {
                    ti
                };
                if i < ni && ni <= s.len() {
                    spec_string_items(s, ni, acc.push(s.subrange(i + 1, j)))
                } else {
                    None
                }
            },
            None => None,
        }
    } else {
        None
    }
}

/// Parses the members of the enabled-set object from `i` to its closing
/// `}`. The first `enabledMods` member must hold an array of strings and
/// becomes the result; every other member is skipped.
pub open spec fn spec_enabled_members(
    s: Seq<char>,
    i: int,
    found: Option<Seq<Seq<char>>>,
) -> Option<(int, Option<Seq<Seq<char>>>)>
    decreases s.len() - i,
{
    if i < 0 || i >= s.len() {
        None
    } else if s[i] == '}' {
        Some((i + 1, found))
    } else {
        let key_parse: Option<(Seq<char>, int)> = if is_quote(s[i]) {
            match spec_string_end(s, i + 1, s[i]) {
                Some(j) => Some((s.subrange(i + 1, j), j + 1)),
                None => None,
            }
        } else if is_bare_char(s[i]) {
            Some((s.subrange(i, spec_bare_end(s, i + 1)), spec_bare_end(s, i + 1)))
        } else {
            None
        };
        match key_parse {
            None => None,
            Some((key, ak)) => {
                let ci = spec_skip_trivia(s, ak);
                if !(0 <= ci < s.len() && s[ci] == ':') {
                    None
                } else {
                    let vi = spec_skip_trivia(s, ci + 1);
                    if key == "enabledMods"@ && found is None {
                        if 0 <= vi < s.len() && s[vi] == '[' {
                            match spec_string_items(s, spec_skip_trivia(s, vi + 1), Seq::empty()) {
                                None => None,
                                Some((ve, items)) => {
                                    let ti = spec_skip_trivia(s, ve);
                                    let ni = if 0 <= ti < s.len() && s[ti] == ',' {
                                        spec_skip_trivia(s, ti + 1)
                                    } else {
                                        ti
                                    };
                                    if i < ni && ni <= s.len() {
                                        spec_enabled_members(s, ni, Some(items))
                                    } else {
                                        None
                                    }
                                },
                            }
                        } else {
                            None
                        }
                    } else {
                        match spec_skip_value(s, vi) {
                            None => None,
                            Some(ve) => {
                                let ti = spec_skip_trivia(s, ve);
                                let ni = if 0 <= ti < s.len() && s[ti] == ',' {
                                    spec_skip_trivia(s, ti + 1)
                                } else {
                                    ti
                                };
                                if i < ni && ni <= s.len() {
                                    spec_enabled_members(s, ni, found)
                                } else {
                                    None
                                }
                            },
                        }
                    }
                }
            },
        }
    }
}

/// What parsing an enabled-set text yields: the ids in array order.
pub open spec fn spec_parse_enabled(s: Seq<char>) -> Result<Seq<Seq<char>>, ParseError> {
    let i0 = spec_skip_trivia(s, 0);
    if 0 <= i0 < s.len() && s[i0] == '{' {
        match spec_enabled_members(s, spec_skip_trivia(s, i0 + 1), None) {
            None => Err(ParseError::Malformed),
            Some((e, found)) => if spec_skip_trivia(s, e) == s.len() {
                match found {
                    None => Err(ParseError::MissingField(MissingKey::EnabledMods)),
                    Some(items) => Ok(items),
                }
            } else {
                Err(ParseError::Malformed)
            },
        }
    } else {
        Err(ParseError::Malformed)
    }
}

fn string_items(s: &str, n: usize, i: usize) -> (r: Option<(usize, Vec<String>)>)
    requires
        n == s@.len(),
        i <= n,
    ensures
        match r {
            Some((e, items)) => spec_string_items(s@, i as int, Seq::empty()) == Some(
                (e as int, strs_view(items@)),
            ) && e <= n,
            None => spec_string_items(s@, i as int, Seq::empty()) is None,
        },
{
    let mut cur: usize = i;
    let mut acc: Vec<String> = Vec::new();
    proof {
        assert(strs_view(acc@) =~= Seq::<Seq<char>>::empty());
    }
    loop
        invariant
            n == s@.len(),
            i <= cur <= n,
            spec_string_items(s@, i as int, Seq::empty()) == spec_string_items(
                s@,
                cur as int,
                strs_view(acc@),
            ),
        decreases n - cur,
    {
        if cur >= n {
            return None;
        }
        let c = s.get_char(cur);
        if c == ']' {
            return Some((cur + 1, acc));
        }
        if !(c == '"' || c == '\'') {
            return None;
        }
        let j = match string_end(s, n, cur + 1, c) {
            Some(j) => j,
            None => {
                return None;
            },
        };
        let item = s.substring_char(cur + 1, j).to_owned();
        let ti = skip_trivia(s, n, j + 1);
        let ni = if ti < n && s.get_char(ti) == ',' {
            skip_trivia(s, n, ti + 1)
        } else {
            ti
        };
        if !(cur < ni && ni <= n) {
            return None;
        }
        let ghost old_acc = acc@;
        acc.push(item);
        proof {
            assert(strs_view(acc@) =~= strs_view(old_acc).push(acc@[old_acc.len() as int]@));
        }
        cur = ni;
    }
}

fn enabled_members(s: &str, n: usize, i: usize) -> (r: Option<(usize, Option<Vec<String>>)>)
    requires
        n == s@.len(),
        i <= n,
    ensures
        match r {
            Some((e, None)) => spec_enabled_members(s@, i as int, None) == Some(
                (e as int, None::<Seq<Seq<char>>>),
            ) && e <= n,
            Some((e, Some(items))) => spec_enabled_members(s@, i as int, None) == Some(
                (e as int, Some(strs_view(items@))),
            ) && e <= n,
            None => spec_enabled_members(s@, i as int, None) is None,
        },
{
    let mut cur: usize = i;
    let mut found: Option<Vec<String>> = None;
    let key_target = String::from_str("enabledMods");
    proof {
        reveal_strlit("enabledMods");
    }
    loop
        invariant
            n == s@.len(),
            i <= cur <= n,
            key_target@ == "enabledMods"@,
            match found {
                None => spec_enabled_members(s@, i as int, None) == spec_enabled_members(
                    s@,
                    cur as int,
                    None,
                ),
                Some(items) => spec_enabled_members(s@, i as int, None) == spec_enabled_members(
                    s@,
                    cur as int,
                    Some(strs_view(items@)),
                ),
            },
        decreases n - cur,
    {
        if cur >= n {
            return None;
        }
        let c = s.get_char(cur);
        if c == '}' {
            return Some((cur + 1, found));
        }
        // key
        let key: String;
        let ak: usize;
        if c == '"' || c == '\'' {
            match string_end(s, n, cur + 1, c) {
                Some(j) => {
                    key = s.substring_char(cur + 1, j).to_owned();
                    ak = j + 1;
                },
                None => {
                    return None;
                },
            }
        } else if is_bare_char_exec(c) {
            let j = bare_end(s, n, cur + 1);
            key = s.substring_char(cur, j).to_owned();
            ak = j;
        } else {
            return None;
        }
        let ci = skip_trivia(s, n, ak);
        if !(ci < n && s.get_char(ci) == ':') {
            return None;
        }
        let vi = skip_trivia(s, n, ci + 1);
        let is_target = key.eq(&key_target) && found.is_none();
        let ve: usize;
        if is_target {
            if !(vi < n && s.get_char(vi) == '[') {
                return None;
            }
            let li = skip_trivia(s, n, vi + 1);
            match string_items(s, n, li) {
                Some((e, items)) => {
                    found = Some(items);
                    ve = e;
                },
                None => {
                    return None;
                },
            }
        } else {
            match skip_value(s, n, vi) {
                Some(e) => {
                    ve = e;
                },
                None => {
                    return None;
                },
            }
        }
        let ti = skip_trivia(s, n, ve);
        let ni = if ti < n && s.get_char(ti) == ',' {
            skip_trivia(s, n, ti + 1)
        } else {
            ti
        };
        if !(cur < ni && ni <= n) {
            return None;
        }
        cur = ni;
    }
}

/// The enabled set: the ids listed in `enabled_mods.json`, in file order.
pub struct EnabledMods {
    pub enabled_mods: Vec<String>,
}

impl View for EnabledMods {
    type V = Seq<Seq<char>>;

    open spec fn view(&self) -> Seq<Seq<char>> {
        strs_view(self.enabled_mods@)
    }
}

/// The canonical text of one quoted id followed by its separator, as the
/// writer emits items left to right: a `", "` before every item but the
/// first.
pub open spec fn spec_quoted(id: Seq<char>) -> Seq<char> {
    seq!['"'] + id + seq!['"']
}

/// The canonical items text for the given ids.
pub open spec fn spec_items_text(ids: Seq<Seq<char>>) -> Seq<char>
    decreases ids.len(),
{
    if ids.len() == 0 {
        Seq::empty()
    } else if ids.len() == 1 {
        spec_quoted(ids[0])
    } else {
        spec_items_text(ids.drop_last()) + seq![',', ' '] + spec_quoted(ids.last())
    }
}

/// The canonical enabled-set file text for the given ids.
pub open spec fn spec_enabled_json(ids: Seq<Seq<char>>) -> Seq<char> {
    "{\"enabledMods\": ["@ + spec_items_text(ids) + "]}"@
}

impl EnabledMods {
    /// No ids enabled.
    pub fn empty() -> (r: Self)
        ensures
            r@ == Seq::<Seq<char>>::empty(),
    {
        let r = EnabledMods { enabled_mods: Vec::new() };
        proof {
            assert(r@ =~= Seq::<Seq<char>>::empty());
        }
        r
    }

    /// The enabled set holding exactly the given ids.
    pub fn from_ids(ids: Vec<String>) -> (r: Self)
        ensures
            r@ == strs_view(ids@),
    {
        EnabledMods { enabled_mods: ids }
    }

    /// Whether the set lists the given id.
    pub fn contains_id(&self, id: &String) -> (r: bool)
        ensures
            r == self@.contains(id@),
    {
        let mut k: usize = 0;
        while k < self.enabled_mods.len()
            invariant
                k <= self.enabled_mods.len(),
                forall|m: int| 0 <= m < k ==> self@[m] != id@,
            decreases self.enabled_mods.len() - k,
        {
            if self.enabled_mods[k].eq(id) {
                proof {
                    assert(self@[k as int] == id@);
                    assert(self@.contains(id@));
                }
                return true;
            }
            k = k + 1;
        }
        proof {
            assert(forall|m: int| 0 <= m < self@.len() ==> self@[m] != id@);
        }
        false
    }

    /// The canonical file text: `{"enabledMods": [<ids, quoted>]}`.
    pub fn to_json(&self) -> (r: String)
        ensures
            r@ == spec_enabled_json(self@),
    {
        let mut out = String::from_str("{\"enabledMods\": [");
        let mut k: usize = 0;
        proof {
            assert(self@.subrange(0, 0) =~= Seq::<Seq<char>>::empty());
            assert(spec_items_text(Seq::empty()) =~= Seq::<char>::empty());
            assert(out@ =~= "{\"enabledMods\": ["@ + spec_items_text(self@.subrange(0, 0)));
        }
        while k < self.enabled_mods.len()
            invariant
                k <= self.enabled_mods.len(),
                out@ == "{\"enabledMods\": ["@ + spec_items_text(self@.subrange(0, k as int)),
            decreases self.enabled_mods.len() - k,
        {
            if k > 0 {
                out.append(", ");
            }
            out.append("\"");
            out.append(self.enabled_mods[k].as_str());
            out.append("\"");
            proof {
                reveal_strlit(", ");
                reveal_strlit("\"");
                let pre = self@.subrange(0, k as int);
                let now = self@.subrange(0, k as int + 1);
                assert(now.drop_last() =~= pre);
                assert(now.last() == self@[k as int]);
                if k == 0 {
                    assert(spec_items_text(now) =~= spec_quoted(self@[0]));
                } else {
                    assert(spec_items_text(now) =~= spec_items_text(pre) + seq![',', ' ']
                        + spec_quoted(self@[k as int]));
                }
                assert(out@ =~= "{\"enabledMods\": ["@ + spec_items_text(now));
            }
            k = k + 1;
        }
        out.append("]}");
        proof {
            assert(self@.subrange(0, self.enabled_mods.len() as int) =~= self@);
            assert(out@ =~= spec_enabled_json(self@));
        }
        out
    }
}

/// No double quote anywhere in the sequence: such an id can be written and
/// read back literally.
pub open spec fn no_quote_chars(s: Seq<char>) -> bool {
    forall|j: int| 0 <= j < s.len() ==> s[j] != '"'
}

/// The items text, read from the front: the first id quoted, then the rest
/// each behind a `", "` separator. Equal to `spec_items_text`, which builds
/// the same text from the back; the parser's walk follows this form.
pub open spec fn head_items_text(ids: Seq<Seq<char>>) -> Seq<char>
    decreases ids.len(),
{
    if ids.len() == 0 {
        Seq::empty()
    } else {
        spec_quoted(ids[0]) + sep_items_text(ids.drop_first())
    }
}

pub open spec fn sep_items_text(ids: Seq<Seq<char>>) -> Seq<char>
    decreases ids.len(),
{
    if ids.len() == 0 {
        Seq::empty()
    } else {
        seq![',', ' '] + spec_quoted(ids[0]) + sep_items_text(ids.drop_first())
    }
}

proof fn lemma_sep_snoc(ids: Seq<Seq<char>>, x: Seq<char>)
    ensures
        sep_items_text(ids.push(x)) == sep_items_text(ids) + seq![',', ' '] + spec_quoted(x),
    decreases ids.len(),
{
    let snoc = ids.push(x);
    if ids.len() == 0 {
        assert(snoc.drop_first() =~= Seq::<Seq<char>>::empty());
        assert(sep_items_text(snoc.drop_first()) == Seq::<char>::empty());
        assert(sep_items_text(snoc) == seq![',', ' '] + spec_quoted(x) + sep_items_text(
            snoc.drop_first(),
        ));
        assert(sep_items_text(ids) == Seq::<char>::empty());
        assert(sep_items_text(snoc) =~= sep_items_text(ids) + seq![',', ' '] + spec_quoted(x));
    } else {
        assert(snoc.drop_first() =~= ids.drop_first().push(x));
        lemma_sep_snoc(ids.drop_first(), x);
        assert(snoc[0] == ids[0]);
        assert(sep_items_text(snoc) == seq![',', ' '] + spec_quoted(ids[0]) + sep_items_text(
            ids.drop_first().push(x),
        ));
        assert(sep_items_text(ids) == seq![',', ' '] + spec_quoted(ids[0]) + sep_items_text(
            ids.drop_first(),
        ));
        assert(sep_items_text(snoc) =~= sep_items_text(ids) + seq![',', ' '] + spec_quoted(x));
    }
}

proof fn lemma_items_text_head_form(ids: Seq<Seq<char>>)
    ensures
        spec_items_text(ids) == head_items_text(ids),
    decreases ids.len(),
{
    if ids.len() == 0 {
    } else if ids.len() == 1 {
        assert(ids.drop_first() =~= Seq::<Seq<char>>::empty());
        assert(head_items_text(ids) =~= spec_quoted(ids[0]));
    } else {
        let pre = ids.drop_last();
        lemma_items_text_head_form(pre);
        assert(pre.push(ids.last()) =~= ids);
        assert(pre.len() > 0);
        // head form absorbs one appended item on the right.
        assert(head_items_text(pre) == spec_quoted(pre[0]) + sep_items_text(pre.drop_first()));
        lemma_sep_snoc(pre.drop_first(), ids.last());
        assert(pre.push(ids.last()).drop_first() =~= pre.drop_first().push(ids.last()));
        assert(head_items_text(ids) =~= head_items_text(pre) + seq![',', ' '] + spec_quoted(
            ids.last(),
        ));
        assert(spec_items_text(ids) =~= head_items_text(ids));
    }
}

proof fn lemma_string_end_at(s: Seq<char>, i: int, k: int, q: char)
    requires
        0 <= i <= k < s.len(),
        forall|m: int| i <= m < k ==> s[m] != q,
        s[k] == q,
    ensures
        spec_string_end(s, i, q) == Some(k),
    decreases k - i,
{
    if i == k {
    } else {
        lemma_string_end_at(s, i + 1, k, q);
    }
}

proof fn lemma_items_parse(t: Seq<char>, p: int, acc: Seq<Seq<char>>, rest: Seq<Seq<char>>)
    requires
        0 <= p <= t.len(),
        t.subrange(p, t.len() as int) == head_items_text(rest) + "]}"@,
        forall|i: int| 0 <= i < rest.len() ==> no_quote_chars(#[trigger] rest[i]),
    ensures
        spec_string_items(t, p, acc) == Some((t.len() - 1, acc + rest)),
    decreases rest.len(),
{
    reveal_strlit("]}");
    let l2 = "]}"@;
    let n = t.len() as int;
    let suffix = t.subrange(p, n);
    assert(l2.len() == 2);
    if rest.len() == 0 {
        assert(head_items_text(rest) == Seq::<char>::empty());
        assert(suffix =~= l2);
        assert(suffix.len() == 2);
        assert(t[p] == suffix[0]);
        assert(t[p] == ']');
        assert(spec_string_items(t, p, acc) == Some((p + 1, acc)));
        assert(p + 1 == n - 1);
        assert(acc + rest =~= acc);
    } else {
        reveal_with_fuel(spec_skip_trivia_from, 3);
        reveal_with_fuel(spec_string_items, 3);
        let x = rest[0];
        let xl = x.len() as int;
        let q = spec_quoted(x);
        let tail = rest.drop_first();
        assert(head_items_text(rest) == q + sep_items_text(tail));
        assert(q.len() == xl + 2);
        assert(suffix.len() == q.len() + sep_items_text(tail).len() + 2);
        assert(q[0] == '"');
        assert(t[p] == suffix[0]);
        assert(t[p] == '"');
        let j = p + 1 + xl;
        assert forall|m: int| p + 1 <= m < j implies t[m] == x[m - p - 1] by {
            assert(t[m] == suffix[m - p]);
            assert(suffix[m - p] == q[m - p]);
            assert(q[m - p] == x[m - p - 1]);
        }
        assert forall|m: int| p + 1 <= m < j implies t[m] != '"' by {
            assert(t[m] == x[m - p - 1]);
            assert(no_quote_chars(rest[0]));
        }
        assert(q[1 + xl] == '"');
        assert(t[j] == suffix[j - p]);
        assert(t[j] == '"');
        lemma_string_end_at(t, p + 1, j, '"');
        assert forall|u: int| 0 <= u < xl implies t.subrange(p + 1, j)[u] == x[u] by {
            assert(t.subrange(p + 1, j)[u] == t[p + 1 + u]);
        }
        assert(t.subrange(p + 1, j) =~= x);
        let acc2 = acc.push(x);
        if rest.len() == 1 {
            assert(tail.len() == 0);
            assert(sep_items_text(tail) == Seq::<char>::empty());
            assert(suffix =~= q + l2);
            assert(t[j + 1] == suffix[j + 1 - p]);
            assert(suffix[j + 1 - p] == l2[0]);
            assert(t[j + 1] == ']');
            assert(spec_skip_trivia(t, j + 1) == j + 1);
            assert(spec_string_items(t, j + 1, acc2) == Some((j + 2, acc2)));
            assert(spec_string_items(t, p, acc) == Some((j + 2, acc2)));
            assert(j + 2 == n - 1);
            assert(acc2 =~= acc + rest);
        } else {
            assert(tail.len() > 0);
            let rem = head_items_text(tail) + l2;
            assert(sep_items_text(tail) == seq![',', ' '] + spec_quoted(tail[0])
                + sep_items_text(tail.drop_first()));
            assert(head_items_text(tail) == spec_quoted(tail[0]) + sep_items_text(
                tail.drop_first(),
            ));
            assert(suffix =~= q + seq![',', ' '] + rem);
            assert(t[j + 1] == suffix[j + 1 - p]);
            assert(suffix[j + 1 - p] == ',');
            assert(t[j + 2] == suffix[j + 2 - p]);
            assert(suffix[j + 2 - p] == ' ');
            assert(t[j + 3] == suffix[j + 3 - p]);
            assert(suffix[j + 3 - p] == rem[0]);
            assert(rem[0] == spec_quoted(tail[0])[0]);
            assert(t[j + 3] == '"');
            assert(spec_skip_trivia(t, j + 1) == j + 1);
            assert(spec_skip_trivia(t, j + 2) == j + 3);
            assert forall|u: int| 0 <= u < n - (j + 3) implies t.subrange(j + 3, n)[u]
                == rem[u] by {
                assert(t.subrange(j + 3, n)[u] == t[j + 3 + u]);
                assert(t[j + 3 + u] == suffix[j + 3 + u - p]);
                assert(suffix[j + 3 + u - p] == rem[u]);
            }
            assert(t.subrange(j + 3, n) =~= rem);
            assert forall|i: int| 0 <= i < tail.len() implies no_quote_chars(
                #[trigger] tail[i],
            ) by {
                assert(tail[i] == rest[i + 1]);
            }
            lemma_items_parse(t, j + 3, acc2, tail);
            assert(acc2 + tail =~= acc + rest);
            assert(spec_string_items(t, p, acc) == spec_string_items(t, j + 3, acc2));
        }
    }
}

/// Round trip: the canonical text the writer produces parses back to
/// exactly the ids it was given, for every id list whose ids contain no
/// double-quote character. An id with one cannot be written literally; it
/// is the one shape this format cannot carry.
pub proof fn lemma_enabled_round_trip(ids: Seq<Seq<char>>)
    requires
        forall|i: int| 0 <= i < ids.len() ==> no_quote_chars(#[trigger] ids[i]),
    ensures
        spec_parse_enabled(spec_enabled_json(ids)) == Ok::<Seq<Seq<char>>, ParseError>(ids),
{
    reveal_strlit("{\"enabledMods\": [");
    reveal_strlit("]}");
    reveal_strlit("enabledMods");
    let l1 = "{\"enabledMods\": ["@;
    let l2 = "]}"@;
    let t = spec_enabled_json(ids);
    lemma_items_text_head_form(ids);
    let m = head_items_text(ids);
    assert(t =~= l1 + m + l2);
    assert(l1.len() == 17);
    let n = t.len() as int;
    assert(n == 19 + m.len());
    assert(t[0] == '{');
    assert(spec_skip_trivia(t, 0) == 0);
    assert(t[1] == '"');
    assert(spec_skip_trivia(t, 1) == 1);
    assert(forall|k: int| 2 <= k < 13 ==> t[k] == l1[k]);
    assert(forall|k: int| 2 <= k < 13 ==> t[k] != '"');
    assert(t[13] == '"');
    lemma_string_end_at(t, 2, 13, '"');
    assert(t.subrange(2, 13) =~= "enabledMods"@);
    assert(t[14] == ':');
    assert(spec_skip_trivia(t, 14) == 14);
    assert(t[15] == ' ');
    reveal_with_fuel(spec_skip_trivia_from, 3);
    assert(spec_skip_trivia(t, 15) == 16);
    assert(t[16] == '[');
    if ids.len() == 0 {
        assert(t[17] == ']');
    } else {
        assert(t[17] == (m + l2)[0]);
        assert(t[17] == '"');
    }
    assert(spec_skip_trivia(t, 17) == 17);
    assert(t.subrange(17, n) =~= m + l2);
    lemma_items_parse(t, 17, Seq::empty(), ids);
    assert(spec_string_items(t, 17, Seq::empty()) == Some((n - 1, Seq::empty() + ids)));
    assert(Seq::empty() + ids =~= ids);
    assert(t[n - 1] == '}');
    assert(spec_skip_trivia(t, n - 1) == n - 1);
    reveal_with_fuel(spec_enabled_members, 3);
    assert(spec_enabled_members(t, n - 1, Some(ids)) == Some((n, Some(ids))));
    assert(spec_enabled_members(t, 1, None) == Some((n, Some(ids))));
    assert(spec_skip_trivia(t, n) == n);
}

/// Parses an enabled-set text into the listed ids, in order.
///
/// Returns exactly what the spec-level grammar says: the ids of the first
/// `enabledMods` array, `Malformed` when the text is not one well-formed
/// object with an array of strings there, and `MissingField` when the key is
/// absent.
pub fn parse_enabled(text: &str) -> (r: Result<EnabledMods, ParseError>)
    ensures
        match r {
            Ok(em) => spec_parse_enabled(text@) == Ok::<Seq<Seq<char>>, ParseError>(em@),
            Err(pe) => spec_parse_enabled(text@) == Err::<Seq<Seq<char>>, ParseError>(pe),
        },
{
    let n = text.unicode_len();
    let i0 = skip_trivia(text, n, 0);
    if !(i0 < n && text.get_char(i0) == '{') {
        return Err(ParseError::Malformed);
    }
    let i1 = skip_trivia(text, n, i0 + 1);
    match enabled_members(text, n, i1) {
        None => Err(ParseError::Malformed),
        Some((e, found)) => {
            if skip_trivia(text, n, e) != n {
                return Err(ParseError::Malformed);
            }
            match found {
                None => Err(ParseError::MissingField(MissingKey::EnabledMods)),
                Some(items) => Ok(EnabledMods { enabled_mods: items }),
            }
        },
    }
}

} // verus!
