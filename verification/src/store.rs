//! The query logic of the tracking store: the MLflow filter strings it
//! understands, the placeholders of its SQL, and the artifact locations of
//! experiments and runs. The SQL itself runs in the binaries.
use vstd::prelude::*;
use crate::text;

verus! {

// ---------------------------------------------------------------------------
// Run filters: tag.`key` = 'value'
// ---------------------------------------------------------------------------

/// The key quoted by `q` at the start of `s`, and what follows the closing
/// quote (trimmed): `None` when `s` does not start with `q` or the quote is
/// not closed.
pub open spec fn quoted_key(s: Seq<char>, q: char) -> Option<(Seq<char>, Seq<char>)> {
    if s.len() > 0 && s[0] == q {
        let inner = s.drop_first();
        match text::find_char(inner, q) {
            Some(end) => Some(
                (inner.subrange(0, end), text::trim(inner.subrange(end + 1, inner.len() as int))),
            ),
            None => None,
        }
    } else {
        None
    }
}

/// The `(key, value)` of a filter `tag.<q>key<q> = 'value'`, where `<q>` is
/// a backtick or a single quote; whitespace is allowed around the whole
/// filter and around `=`. `None` for any other filter.
pub open spec fn spec_tag_filter(filter: Seq<char>) -> Option<(Seq<char>, Seq<char>)> {
    let s = text::trim(filter);
    if !text::starts_with(s, "tag."@) {
        None
    } else {
        let s1 = s.subrange(4, s.len() as int);
        let kr = if s1.len() > 0 && s1[0] == '`' {
            quoted_key(s1, '`')
        } else {
            quoted_key(s1, '\'')
        };
        match kr {
            None => None,
            Some((key, rest)) => if rest.len() > 0 && rest[0] == '=' {
                let r2 = text::trim(rest.drop_first());
                if r2.len() >= 2 && r2[0] == '\'' && r2.last() == '\'' {
                    Some((key, r2.subrange(1, r2.len() - 1)))
                } else {
                    None
                }
            } else {
                None
            },
        }
    }
}

fn quoted_key_exec(s: &Vec<char>, q: char) -> (r: Option<(Vec<char>, Vec<char>)>)
    ensures
        match r {
            Some((k, rest)) => quoted_key(s@, q) == Some((k@, rest@)),
            None => quoted_key(s@, q) is None,
        },
{
    if s.len() > 0 && s[0] == q {
        let n = s.len();
        let inner = text::sub_chars(s.as_slice(), 1, n);
        assert(inner@ =~= s@.drop_first());
        match text::find_char_exec(inner.as_slice(), q) {
            Some(end) => {
                let key = text::sub_chars(inner.as_slice(), 0, end);
                let after = text::sub_chars(inner.as_slice(), end + 1, inner.len());
                let rest = text::trim_chars(after.as_slice());
                Some((key, rest))
            },
            None => None,
        }
    } else {
        None
    }
}

/// Parse `tag.\`key\` = 'value'` or `tag.'key' = 'value'` into `(key, value)`.
pub fn parse_tag_filter(filter: &str) -> (r: Option<(String, String)>)
    ensures
        match r {
            Some((k, v)) => spec_tag_filter(filter@) == Some((k@, v@)),
            None => spec_tag_filter(filter@) is None,
        },
{
    proof {
        reveal_strlit("tag.");
    }
    let c = text::chars_of(filter);
    let s = text::trim_chars(c.as_slice());
    let prefix = text::chars_of("tag.");
    if !text::starts_with_exec(s.as_slice(), prefix.as_slice()) {
        return None;
    }
    let n = s.len();
    let s1 = text::sub_chars(s.as_slice(), 4, n);
    let kr = if s1.len() > 0 && s1[0] == '`' {
        quoted_key_exec(&s1, '`')
    } else {
        quoted_key_exec(&s1, '\'')
    };
    let (key, rest) = match kr {
        Some(p) => p,
        None => return None,
    };
    if !(rest.len() > 0 && rest[0] == '=') {
        return None;
    }
    let after_eq = text::sub_chars(rest.as_slice(), 1, rest.len());
    assert(after_eq@ =~= rest@.drop_first());
    let r2 = text::trim_chars(after_eq.as_slice());
    let m = r2.len();
    if m >= 2 && r2[0] == '\'' && r2[m - 1] == '\'' {
        let value = text::sub_chars(r2.as_slice(), 1, m - 1);
        Some((text::string_from_chars(key.as_slice()), text::string_from_chars(value.as_slice())))
    } else {
        None
    }
}

/// Whether every character of `w` is whitespace.
pub open spec fn all_ws(w: Seq<char>) -> bool {
    forall|j: int| 0 <= j < w.len() ==> text::is_ws(#[trigger] w[j])
}

/// A filter written as `tag.<q>key<q> = 'value'`, with `<q>` a backtick or
/// a single quote that the key does not hold, parses back into its key and
/// value, whatever whitespace surrounds the filter and its `=`.
pub proof fn lemma_tag_filter_roundtrip(
    q: char,
    key: Seq<char>,
    value: Seq<char>,
    w1: Seq<char>,
    w2: Seq<char>,
    w3: Seq<char>,
    w4: Seq<char>,
)
    requires
        q == '`' || q == '\'',
        forall|j: int| 0 <= j < key.len() ==> key[j] != q,
        all_ws(w1),
        all_ws(w2),
        all_ws(w3),
        all_ws(w4),
    ensures
        spec_tag_filter(
            w1 + "tag."@ + seq![q] + key + seq![q] + w2 + "="@ + w3 + seq!['\''] + value + seq!['\'']
                + w4,
        ) == Some((key, value)),
{
    reveal_strlit("tag.");
    reveal_strlit("=");
    let y = seq!['\''] + value + seq!['\''];
    let x = seq!['='] + w3 + y;
    let tail = w2 + x;
    let inner = key + seq![q] + tail;
    let s1 = seq![q] + inner;
    let core = "tag."@ + s1;
    let filter = w1 + "tag."@ + seq![q] + key + seq![q] + w2 + "="@ + w3 + seq!['\''] + value
        + seq!['\''] + w4;
    assert(filter =~= w1 + core + w4);
    assert(core[0] == 't');
    assert(core.last() == '\'');
    text::lemma_trim_around(w1, core, w4);
    assert(text::trim(filter) == core);
    assert(core.subrange(0, 4) =~= "tag."@);
    assert(core.subrange(4, core.len() as int) =~= s1);
    assert(s1.drop_first() =~= inner);
    text::lemma_find_char_at(inner, q, key.len() as int);
    assert(inner.subrange(0, key.len() as int) =~= key);
    assert(inner.subrange(key.len() as int + 1, inner.len() as int) =~= tail);
    text::lemma_trim_around(w2, x, Seq::<char>::empty());
    assert(w2 + x + Seq::<char>::empty() =~= tail);
    assert(x.drop_first() =~= w3 + y);
    text::lemma_trim_around(w3, y, Seq::<char>::empty());
    assert(w3 + y + Seq::<char>::empty() =~= w3 + y);
    assert(y.subrange(1, y.len() - 1) =~= value);
}

/// Only a filter that starts with `tag.` (after its whitespace) is a tag
/// filter.
pub proof fn lemma_tag_filter_needs_prefix(filter: Seq<char>)
    requires
        !text::starts_with(text::trim(filter), "tag."@),
    ensures
        spec_tag_filter(filter) is None,
{
}

// ---------------------------------------------------------------------------
// Model version filters: name = 'foo' and/or run_id = 'bar'
// ---------------------------------------------------------------------------

/// The value quoted after the first `<field> = '` in `filter`, up to the
/// next `'`; `None` when there is no such text or the quote is not closed.
pub open spec fn spec_eq_value(filter: Seq<char>, field: Seq<char>) -> Option<Seq<char>> {
    let needle = field + " = '"@;
    match text::find(filter, needle) {
        None => None,
        Some(i) => {
            let rest = filter.subrange(i + needle.len(), filter.len() as int);
            match text::find_char(rest, '\'') {
                Some(end) => Some(rest.subrange(0, end)),
                None => None,
            }
        },
    }
}

/// The value of `field` in a filter: the text between the first
/// `<field> = '` and the next `'`.
pub fn extract_eq_value(filter: &str, field: &str) -> (r: Option<String>)
    ensures
        match r {
            Some(v) => spec_eq_value(filter@, field@) == Some(v@),
            None => spec_eq_value(filter@, field@) is None,
        },
{
    let f = text::chars_of(filter);
    let mut needle = text::chars_of(field);
    text::push_str(&mut needle, " = '");
    let ghost nd = field@ + " = '"@;
    assert(needle@ == nd);
    let found = text::find_chars(f.as_slice(), needle.as_slice());
    match found {
        Some(start) => {
            let fl = f.len();
            assert(start + needle@.len() <= fl);
            let from = start + needle.len();
            let rest = text::sub_chars(f.as_slice(), from, fl);
            let ghost grest = filter@.subrange(start + nd.len(), filter@.len() as int);
            assert(rest@ == grest);
            match text::find_char_exec(rest.as_slice(), '\'') {
                Some(end) => {
                    let v = text::sub_chars(rest.as_slice(), 0, end);
                    Some(text::string_from_chars(v.as_slice()))
                },
                None => None,
            }
        },
        None => None,
    }
}

/// Parse `name = 'foo'` and/or `run_id = 'bar'` from a model version filter string.
pub fn parse_mv_filter(filter: &str) -> (r: (Option<String>, Option<String>))
    ensures
        match r.0 {
            Some(v) => spec_eq_value(filter@, "name"@) == Some(v@),
            None => spec_eq_value(filter@, "name"@) is None,
        },
        match r.1 {
            Some(v) => spec_eq_value(filter@, "run_id"@) == Some(v@),
            None => spec_eq_value(filter@, "run_id"@) is None,
        },
{
    let name = extract_eq_value(filter, "name");
    let run_id = extract_eq_value(filter, "run_id");
    (name, run_id)
}

/// A model version filter `name = '<n>' and run_id = '<r>'` parses back
/// into its name and run id, when neither holds a `'` and the name does not
/// end with `run_id = ` (the run id would then be read from the name's end).
pub proof fn lemma_mv_filter_roundtrip(n: Seq<char>, r: Seq<char>)
    requires
        forall|j: int| 0 <= j < n.len() ==> n[j] != '\'',
        forall|j: int| 0 <= j < r.len() ==> r[j] != '\'',
        !(n.len() >= 9 && n.subrange(n.len() - 9, n.len() as int) == "run_id = "@),
    ensures
        ({
            let f = "name = '"@ + n + "' and run_id = '"@ + r + "'"@;
            &&& spec_eq_value(f, "name"@) == Some(n)
            &&& spec_eq_value(f, "run_id"@) == Some(r)
        }),
{
    reveal_strlit("name = '");
    reveal_strlit("' and run_id = '");
    reveal_strlit("'");
    reveal_strlit("name");
    reveal_strlit("run_id");
    reveal_strlit(" = '");
    reveal_strlit("run_id = ");
    let a = "name = '"@;
    let b = "' and run_id = '"@;
    let c = "'"@;
    let f = a + n + b + r + c;
    let nl = n.len() as int;
    let rl = r.len() as int;
    assert(a =~= seq!['n', 'a', 'm', 'e', ' ', '=', ' ', '\'']);
    assert(b =~= seq!['\'', ' ', 'a', 'n', 'd', ' ', 'r', 'u', 'n', '_', 'i', 'd', ' ', '=', ' ', '\'']);
    assert(c =~= seq!['\'']);
    // name
    let needle1 = "name"@ + " = '"@;
    assert(needle1 =~= a);
    assert(f.subrange(0, 8) =~= a);
    text::lemma_find_at(f, needle1, 0);
    let rest1 = f.subrange(8, f.len() as int);
    assert(rest1 =~= n + b + r + c);
    text::lemma_find_char_at(rest1, '\'', nl);
    assert(rest1.subrange(0, nl) =~= n);
    // run_id
    let needle2 = "run_id"@ + " = '"@;
    assert(needle2 =~= seq!['r', 'u', 'n', '_', 'i', 'd', ' ', '=', ' ', '\'']);
    let pos = nl + 14;
    assert(f.subrange(pos, pos + 10) =~= needle2);
    assert forall|j: int| 0 <= j < pos implies !text::occurs_at(f, needle2, j) by {
        if text::occurs_at(f, needle2, j) {
            assert(f.subrange(j, j + 10)[9] == needle2[9]);
            let k = j + 9;
            if k < 8 {
                assert(f[k] == a[k]);
            } else if k < 8 + nl {
                assert(f[k] == n[k - 8]);
            } else if k == 8 + nl {
                if nl >= 9 {
                    assert forall|t: int| 0 <= t < 9 implies #[trigger] n.subrange(nl - 9, nl)[t]
                        == "run_id = "@[t] by {
                        assert(f.subrange(j, j + 10)[t] == needle2[t]);
                        assert(f[j + t] == n[nl - 9 + t]);
                    }
                    assert(n.subrange(nl - 9, nl) =~= "run_id = "@);
                } else {
                    let t = 8 - nl;
                    assert(f.subrange(j, j + 10)[t] == needle2[t]);
                    assert(f[7] == a[7]);
                }
            } else {
                assert(f[k] == b[k - 8 - nl]);
            }
        }
    }
    text::lemma_find_at(f, needle2, pos);
    let rest2 = f.subrange(pos + 10, f.len() as int);
    assert(rest2 =~= r + c);
    text::lemma_find_char_at(rest2, '\'', rl);
    assert(rest2.subrange(0, rl) =~= r);
}

// ---------------------------------------------------------------------------
// SQL placeholders
// ---------------------------------------------------------------------------

/// `n` question marks separated by commas, for an `IN (...)` list.
pub open spec fn spec_placeholders(n: nat) -> Seq<char>
    decreases n,
{
    if n == 0 {
        Seq::<char>::empty()
    } else if n == 1 {
        seq!['?']
    } else {
        spec_placeholders((n - 1) as nat) + seq![',', '?']
    }
}

/// The placeholder list of `n` bound values, e.g. `?,?,?`.
pub fn placeholders(n: usize) -> (r: String)
    ensures
        r@ == spec_placeholders(n as nat),
{
    let mut v: Vec<char> = Vec::new();
    let mut i: usize = 0;
    while i < n
        invariant
            0 <= i <= n,
            v@ == spec_placeholders(i as nat),
        decreases n - i,
    {
        if i > 0 {
            v.push(',');
        }
        v.push('?');
        i = i + 1;
        assert(v@ =~= spec_placeholders(i as nat));
    }
    text::string_from_chars(v.as_slice())
}

// ---------------------------------------------------------------------------
// Artifact locations
// ---------------------------------------------------------------------------

/// The scheme of artifact locations managed by the server.
pub open spec fn artifacts_scheme() -> Seq<char> {
    "mlflow-artifacts:/"@
}

/// The artifact location of a new experiment without an explicit one.
pub fn default_artifact_location(experiment_id: &str) -> (r: String)
    ensures
        r@ == artifacts_scheme() + experiment_id@,
{
    let mut v: Vec<char> = Vec::new();
    text::push_str(&mut v, "mlflow-artifacts:/");
    text::push_str(&mut v, experiment_id);
    text::string_from_chars(v.as_slice())
}

/// The artifact URI of a new run: `{experiment location}/{run_id}/artifacts`.
pub fn run_artifact_uri(artifact_location: &str, run_id: &str) -> (r: String)
    ensures
        r@ == artifact_location@ + "/"@ + run_id@ + "/artifacts"@,
{
    let mut v: Vec<char> = Vec::new();
    text::push_str(&mut v, artifact_location);
    text::push_str(&mut v, "/");
    text::push_str(&mut v, run_id);
    text::push_str(&mut v, "/artifacts");
    text::string_from_chars(v.as_slice())
}

/// Where a run's artifacts live below the artifact root: its URI without the
/// `mlflow-artifacts:/` scheme, or the URI unchanged when it has no scheme.
pub open spec fn spec_artifact_path(uri: Seq<char>) -> Seq<char> {
    if text::starts_with(uri, artifacts_scheme()) {
        uri.subrange(artifacts_scheme().len() as int, uri.len() as int)
    } else {
        uri
    }
}

/// The path of a run's artifacts relative to the artifact root.
pub fn artifact_relative_path(uri: &str) -> (r: String)
    ensures
        r@ == spec_artifact_path(uri@),
{
    let c = text::chars_of(uri);
    let scheme = text::chars_of("mlflow-artifacts:/");
    if text::starts_with_exec(c.as_slice(), scheme.as_slice()) {
        let rest = text::sub_chars(c.as_slice(), scheme.len(), c.len());
        text::string_from_chars(rest.as_slice())
    } else {
        text::owned(uri)
    }
}

/// A run of an experiment created with the default location keeps its
/// artifacts at `{experiment_id}/{run_id}/artifacts` below the root.
pub proof fn lemma_default_run_artifacts_path(experiment_id: Seq<char>, run_id: Seq<char>)
    ensures
        spec_artifact_path(artifacts_scheme() + experiment_id + "/"@ + run_id + "/artifacts"@)
            == experiment_id + "/"@ + run_id + "/artifacts"@,
{
    let uri = artifacts_scheme() + experiment_id + "/"@ + run_id + "/artifacts"@;
    let n = artifacts_scheme().len() as int;
    assert(uri.subrange(0, n) =~= artifacts_scheme());
    assert(uri.subrange(n, uri.len() as int) =~= experiment_id + "/"@ + run_id + "/artifacts"@);
}

} // verus!
