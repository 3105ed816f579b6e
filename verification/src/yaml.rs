//! Editing of the YAML text of a configuration file: escaping of scalars,
//! insertion of a `language` line and replacement of top-level scalars.
use vstd::prelude::*;
use crate::text::{ends_with_cr, lemma_lines_of_join, lines_well_formed, pairs_view, chars_of, extend_chars, has_prefix, chars_eq, join, join_with, lines, lines_of, opt_view, string_of, views};

verus! {

/// An error of `serde_yaml`.
#[verifier::external_type_specification]
#[verifier::external_body]
pub struct ExYamlError(serde_yaml::Error);

/// The YAML document that `serde_yaml::to_string` writes for a string value.
pub uninterp spec fn yaml_string_document(s: Seq<char>) -> Seq<char>;

/// Calls `serde_yaml::to_string` on a string value.  The document is named
/// by `yaml_string_document`; nothing is stated of how it looks.  For a
/// string the call succeeds: its documentation says serialization fails only
/// where the value's `Serialize` decides to fail, which that of `str` never
/// does, and the emitter writes into a `Vec<u8>`, which never fails.
#[verifier::external_body]
fn serialize_string(s: &str) -> (r: Result<String, serde_yaml::Error>)
    ensures
        r is Ok,
        yaml_string_document(s@) == r->Ok_0@,
{
    serde_yaml::to_string(s)
}

/// The document start marker that `serde_yaml` writes first.
pub open spec fn document_marker() -> Seq<char> {
    "---\n"@
}

/// The scalar of a one-scalar document: the document without its start
/// marker and without its final line feed.
pub open spec fn scalar_of_document(d: Seq<char>) -> Seq<char> {
    let a = if document_marker().is_prefix_of(d) {
        d.skip(document_marker().len() as int)
    } else {
        d
    };
    if a.len() > 0 && a.last() == '\n' {
        a.drop_last()
    } else {
        a
    }
}

/// `s` written as a YAML scalar.
pub open spec fn escaped(s: Seq<char>) -> Seq<char> {
    scalar_of_document(yaml_string_document(s))
}

/// Writes `s` as a YAML scalar that can stand after `key: ` on one line.
pub fn escape_string(s: &str) -> (r: String)
    ensures
        r@ == escaped(s@),
{
    match serialize_string(s) {
        Err(_) => String::new(),
        Ok(d) => {
            let dv = chars_of(d.as_str());
            let marker = chars_of("---\n");
            let mut a: Vec<char> = Vec::new();
            let start: usize = if has_prefix(&dv, &marker) {
                marker.len()
            } else {
                0
            };
            let mut i: usize = start;
            while i < dv.len()
                invariant
                    start <= i <= dv.len(),
                    a@ == dv@.subrange(start as int, i as int),
                decreases dv.len() - i,
            {
                a.push(dv[i]);
                i = i + 1;
                assert(a@ =~= dv@.subrange(start as int, i as int));
            }
            assert(a@ =~= (if document_marker().is_prefix_of(d@) {
                d@.skip(document_marker().len() as int)
            } else {
                d@
            }));
            if a.len() > 0 && a[a.len() - 1] == '\n' {
                a.pop();
            }
            string_of(&a)
        },
    }
}

/// The text with a line `language: <escaped language>` inserted as its first
/// line, or as its second where the first one is the document marker `---`.
/// The lines are joined with line feeds.
pub open spec fn with_language_line(yaml: Seq<char>, escaped_language: Seq<char>) -> Seq<char> {
    let ls = lines_of(yaml);
    let idx: int = if ls.len() > 0 && ls[0] == "---"@ {
        1
    } else {
        0
    };
    join_with(ls.insert(idx, "language: "@ + escaped_language), "\n"@)
}

/// Inserts a `language` line into the YAML text of a configuration.
pub fn insert_language_line(yaml: &str, language: &str) -> (r: String)
    ensures
        r@ == with_language_line(yaml@, escaped(language@)),
{
    let e = escape_string(language);
    let mut ls = lines(&chars_of(yaml));
    let mut line = chars_of("language: ");
    extend_chars(&mut line, &chars_of(e.as_str()));
    let dashes = chars_of("---");
    let idx: usize = if ls.len() > 0 && chars_eq(&ls[0], &dashes) {
        1
    } else {
        0
    };
    let ghost before = views(ls@);
    let ghost lv = line@;
    ls.insert(idx, line);
    assert(views(ls@) =~= before.insert(idx as int, lv));
    let joined = join(&ls, &chars_of("\n"));
    string_of(&joined)
}


/// Whether `line` is the line of the top-level key `key`.
pub open spec fn is_key_line(line: Seq<char>, key: Seq<char>) -> bool {
    (key + ":"@).is_prefix_of(line)
}

/// The first of `keys`, from the `i`-th on, whose line `line` is.
pub open spec fn first_key(line: Seq<char>, keys: Seq<Seq<char>>, i: int) -> Option<int>
    decreases keys.len() - i,
{
    if i < 0 || i >= keys.len() {
        None
    } else if is_key_line(line, keys[i]) {
        Some(i)
    } else {
        first_key(line, keys, i + 1)
    }
}

/// A key found by `first_key` is one of `keys`, and its line is `line`.
pub proof fn lemma_first_key_in_range(line: Seq<char>, keys: Seq<Seq<char>>, i: int)
    ensures
        first_key(line, keys, i) matches Some(k) ==> 0 <= i <= k < keys.len() && is_key_line(line, keys[k]),
    decreases keys.len() - i,
{
    if 0 <= i < keys.len() && !is_key_line(line, keys[i]) {
        lemma_first_key_in_range(line, keys, i + 1);
    }
}

/// A line with the value of its key replaced, where it is the line of one of `keys`.
pub open spec fn replaced_line(line: Seq<char>, keys: Seq<Seq<char>>, values: Seq<Seq<char>>) -> Seq<char> {
    match first_key(line, keys, 0) {
        Some(i) => keys[i] + ": "@ + values[i],
        None => line,
    }
}

/// The lines of `yaml`, each with the value of its key replaced, joined with line feeds.
pub open spec fn replaced_text(yaml: Seq<char>, keys: Seq<Seq<char>>, values: Seq<Seq<char>>) -> Seq<char> {
    join_with(lines_of(yaml).map_values(|l: Seq<char>| replaced_line(l, keys, values)), "\n"@)
}

/// Whether some line of `yaml` is the line of the top-level key `key`.
pub open spec fn key_found(yaml: Seq<char>, key: Seq<char>) -> bool {
    exists|j: int| 0 <= j < lines_of(yaml).len() && is_key_line(#[trigger] lines_of(yaml)[j], key)
}

/// The keys of a list of replacements.
pub open spec fn keys_of(reps: Seq<(Seq<char>, Seq<char>)>) -> Seq<Seq<char>> {
    reps.map_values(|p: (Seq<char>, Seq<char>)| p.0)
}

/// The new values of a list of replacements.
pub open spec fn values_of(reps: Seq<(Seq<char>, Seq<char>)>) -> Seq<Seq<char>> {
    reps.map_values(|p: (Seq<char>, Seq<char>)| p.1)
}

/// The new values of a list of replacements, written as YAML scalars.
pub open spec fn escaped_values(reps: Seq<(Seq<char>, Seq<char>)>) -> Seq<Seq<char>> {
    reps.map_values(|p: (Seq<char>, Seq<char>)| escaped(p.1))
}

/// The warning for the first replacement, from the `i`-th on, that cannot
/// be made: its key has no line.
pub open spec fn replace_error(yaml: Seq<char>, keys: Seq<Seq<char>>, values: Seq<Seq<char>>, i: int) -> Option<Seq<char>>
    decreases keys.len() - i,
{
    if i < 0 || i >= keys.len() || i >= values.len() {
        None
    } else if !key_found(yaml, keys[i]) {
        Some("could not find `"@ + keys[i] + "` at the top level"@)
    } else {
        replace_error(yaml, keys, values, i + 1)
    }
}

/// Whether one of `ls` starts with `prefix`.
fn any_line_has_prefix(ls: &Vec<Vec<char>>, prefix: &Vec<char>) -> (r: bool)
    ensures
        r == exists|j: int| 0 <= j < ls@.len() && prefix@.is_prefix_of(#[trigger] views(ls@)[j]),
{
    let mut j: usize = 0;
    while j < ls.len()
        invariant
            j <= ls.len(),
            forall|k: int| 0 <= k < j ==> !prefix@.is_prefix_of(#[trigger] views(ls@)[k]),
        decreases ls.len() - j,
    {
        if has_prefix(&ls[j], prefix) {
            assert(prefix@.is_prefix_of(views(ls@)[j as int]));
            return true;
        }
        j = j + 1;
    }
    false
}

/// The index of the first key whose line `line` is.
fn first_key_index(line: &Vec<char>, key_colons: &Vec<Vec<char>>, Ghost(keys): Ghost<Seq<Seq<char>>>) -> (r: Option<usize>)
    requires
        key_colons@.len() == keys.len(),
        forall|i: int| 0 <= i < keys.len() ==> #[trigger] key_colons@[i]@ == keys[i] + ":"@,
    ensures
        match r {
            Some(i) => first_key(line@, keys, 0) == Some(i as int),
            None => first_key(line@, keys, 0) is None,
        },
{
    let mut i: usize = 0;
    while i < key_colons.len()
        invariant
            i <= key_colons.len(),
            key_colons@.len() == keys.len(),
            forall|k: int| 0 <= k < keys.len() ==> #[trigger] key_colons@[k]@ == keys[k] + ":"@,
            first_key(line@, keys, 0) == first_key(line@, keys, i as int),
        decreases key_colons.len() - i,
    {
        if has_prefix(line, &key_colons[i]) {
            return Some(i);
        }
        i = i + 1;
    }
    None
}

/// Replaces the values of top-level keys in the YAML text `yaml`, each line
/// `key: ...` becoming `key: <escaped new value>`.  Fails with a warning
/// where a key has no line.
pub fn replace_scalars(yaml: &str, replacements: &Vec<(String, String)>) -> (r: Result<String, String>)
    ensures
        match replace_error(yaml@, keys_of(pairs_view(replacements@)), values_of(pairs_view(replacements@)), 0) {
            Some(m) => r is Err && r->Err_0@ == m,
            None => r is Ok && r->Ok_0@ == replaced_text(yaml@, keys_of(pairs_view(replacements@)), escaped_values(pairs_view(replacements@))),
        },
{
    let ghost keys = keys_of(pairs_view(replacements@));
    let ghost vals = values_of(pairs_view(replacements@));
    let ls = lines(&chars_of(yaml));
    let mut key_colons: Vec<Vec<char>> = Vec::new();
    let mut escs: Vec<Vec<char>> = Vec::new();
    let mut i: usize = 0;
    while i < replacements.len()
        invariant
            i <= replacements.len(),
            keys == keys_of(pairs_view(replacements@)),
            vals == values_of(pairs_view(replacements@)),
            views(ls@) == lines_of(yaml@),
            key_colons@.len() == i,
            escs@.len() == i,
            forall|k: int| 0 <= k < i ==> #[trigger] key_colons@[k]@ == keys[k] + ":"@,
            forall|k: int| 0 <= k < i ==> #[trigger] escs@[k]@ == escaped_values(pairs_view(replacements@))[k],
            replace_error(yaml@, keys, vals, 0) == replace_error(yaml@, keys, vals, i as int),
        decreases replacements.len() - i,
    {
        let key = &replacements[i].0;
        let value = &replacements[i].1;
        let mut kc = chars_of(key.as_str());
        extend_chars(&mut kc, &chars_of(":"));
        let e = escape_string(value.as_str());
        if !any_line_has_prefix(&ls, &kc) {
            assert(!key_found(yaml@, keys[i as int]));
            let mut m = chars_of("could not find `");
            extend_chars(&mut m, &chars_of(key.as_str()));
            extend_chars(&mut m, &chars_of("` at the top level"));
            return Err(string_of(&m));
        }
        assert(key_found(yaml@, keys[i as int])) by {
            let j = choose|j: int| 0 <= j < ls@.len() && kc@.is_prefix_of(#[trigger] views(ls@)[j]);
            assert(is_key_line(lines_of(yaml@)[j], keys[i as int]));
        }
        key_colons.push(kc);
        escs.push(chars_of(e.as_str()));
        i = i + 1;
    }
    let mut out: Vec<Vec<char>> = Vec::new();
    let mut j: usize = 0;
    while j < ls.len()
        invariant
            j <= ls.len(),
            keys == keys_of(pairs_view(replacements@)),
            key_colons@.len() == keys.len(),
            escs@.len() == keys.len(),
            forall|k: int| 0 <= k < keys.len() ==> #[trigger] key_colons@[k]@ == keys[k] + ":"@,
            forall|k: int| 0 <= k < keys.len() ==> #[trigger] escs@[k]@ == escaped_values(pairs_view(replacements@))[k],
            out@.len() == j,
            forall|k: int| 0 <= k < j ==> #[trigger] views(out@)[k] == replaced_line(views(ls@)[k], keys, escaped_values(pairs_view(replacements@))),
        decreases ls.len() - j,
    {
        let line = &ls[j];
        let new_line = match first_key_index(line, &key_colons, Ghost(keys)) {
            Some(k) => {
                proof {
                    lemma_first_key_in_range(line@, keys, 0);
                }
                let mut nl = chars_of(replacements[k].0.as_str());
                extend_chars(&mut nl, &chars_of(": "));
                extend_chars(&mut nl, &escs[k]);
                assert(nl@ == replaced_line(line@, keys, escaped_values(pairs_view(replacements@))));
                nl
            },
            None => {
                let c = line.clone();
                assert(c@ =~= line@);
                c
            },
        };
        let ghost old_out = out@;
        out.push(new_line);
        assert forall|k: int| 0 <= k < j + 1 implies #[trigger] views(out@)[k] == replaced_line(views(ls@)[k], keys, escaped_values(pairs_view(replacements@))) by {
            if k < j {
                assert(views(out@)[k] == views(old_out)[k]);
            }
        }
        j = j + 1;
    }
    assert(views(out@) =~= lines_of(yaml@).map_values(|l: Seq<char>| replaced_line(l, keys, escaped_values(pairs_view(replacements@)))));
    let joined = join(&out, &chars_of("\n"));
    Ok(string_of(&joined))
}


/// A line that joins others unchanged: no line feed in it, and no carriage
/// return at its end.
pub open spec fn plain_line(l: Seq<char>) -> bool {
    !l.contains('\n') && !ends_with_cr(l)
}

/// Where a line is `a` followed by `b`, and neither holds a line feed, the
/// line holds none.
proof fn lemma_no_newline_concat(a: Seq<char>, b: Seq<char>)
    requires
        !a.contains('\n'),
        !b.contains('\n'),
    ensures
        !(a + b).contains('\n'),
{
    if (a + b).contains('\n') {
        let k = choose|k: int| 0 <= k < (a + b).len() && (a + b)[k] == '\n';
        if k < a.len() {
            assert(a[k] == '\n');
        } else {
            assert(b[k - a.len()] == '\n');
        }
    }
}

/// A prefix of a line without line feeds holds none.
proof fn lemma_no_newline_prefix(p: Seq<char>, l: Seq<char>)
    requires
        p.is_prefix_of(l),
        !l.contains('\n'),
    ensures
        !p.contains('\n'),
{
    if p.contains('\n') {
        let k = choose|k: int| 0 <= k < p.len() && p[k] == '\n';
        assert(l[k] == '\n');
    }
}

/// Replacing the values of keys keeps the lines of the text, each line of
/// a replaced key becoming `key: <new value>`, where the lines of the text
/// join back unchanged and no new value holds a line feed or ends with a
/// carriage return.
pub proof fn lemma_replaced_lines(yaml: Seq<char>, keys: Seq<Seq<char>>, values: Seq<Seq<char>>)
    requires
        lines_well_formed(lines_of(yaml)),
        keys.len() <= values.len(),
        forall|i: int| 0 <= i < values.len() ==> plain_line(#[trigger] values[i]),
    ensures
        lines_of(replaced_text(yaml, keys, values)) == lines_of(yaml).map_values(|l: Seq<char>| replaced_line(l, keys, values)),
{
    let ls = lines_of(yaml);
    let ms = ls.map_values(|l: Seq<char>| replaced_line(l, keys, values));
    reveal_strlit(": ");
    reveal_strlit(":");
    assert forall|i: int| 0 <= i < ms.len() implies !(#[trigger] ms[i]).contains('\n') && (i < ms.len() - 1 ==> !ends_with_cr(ms[i])) && (i == ms.len() - 1 ==> ms[i].len() > 0) by {
        let l = ls[i];
        assert(!l.contains('\n'));
        if i < ls.len() - 1 {
            assert(!ends_with_cr(l));
        } else {
            assert(l.len() > 0);
        }
        lemma_first_key_in_range(l, keys, 0);
        match first_key(l, keys, 0) {
            Some(k) => {
                let key = keys[k];
                assert(key.is_prefix_of(key + ":"@)) by {
                    assert((key + ":"@).take(key.len() as int) =~= key);
                }
                assert(key.is_prefix_of(l)) by {
                    assert(l.take(key.len() as int) =~= (key + ":"@).take(key.len() as int));
                }
                lemma_no_newline_prefix(key, l);
                assert(!": "@.contains('\n')) by {
                    if ": "@.contains('\n') {
                        let j = choose|j: int| 0 <= j < ": "@.len() && ": "@[j] == '\n';
                    }
                }
                lemma_no_newline_concat(key, ": "@);
                lemma_no_newline_concat(key + ": "@, values[k]);
                assert(ms[i] == key + ": "@ + values[k]);
                assert(ms[i].len() > 0);
                assert(plain_line(values[k]));
                if values[k].len() > 0 {
                    assert(ms[i].last() == values[k].last());
                } else {
                    assert(ms[i] =~= key + ": "@);
                    assert(ms[i].last() == ' ');
                }
            },
            None => {
                assert(ms[i] == l);
            },
        }
    }
    assert(lines_well_formed(ms));
    lemma_lines_of_join(ms);
}

/// Inserting the `language` line keeps the lines of the text and puts the
/// new line first, or second after a document marker `---`, where the
/// lines of the text join back unchanged and the escaped language holds no
/// line feed and does not end with a carriage return.
pub proof fn lemma_language_line_inserted(yaml: Seq<char>, escaped_language: Seq<char>)
    requires
        lines_well_formed(lines_of(yaml)),
        plain_line(escaped_language),
    ensures
        ({
            let ls = lines_of(yaml);
            let idx: int = if ls.len() > 0 && ls[0] == "---"@ {
                1
            } else {
                0
            };
            lines_of(with_language_line(yaml, escaped_language)) == ls.insert(idx, "language: "@ + escaped_language)
        }),
{
    let ls = lines_of(yaml);
    let idx: int = if ls.len() > 0 && ls[0] == "---"@ {
        1
    } else {
        0
    };
    let line = "language: "@ + escaped_language;
    let ms = ls.insert(idx, line);
    reveal_strlit("language: ");
    assert(!"language: "@.contains('\n')) by {
        if "language: "@.contains('\n') {
            let j = choose|j: int| 0 <= j < "language: "@.len() && "language: "@[j] == '\n';
        }
    }
    lemma_no_newline_concat("language: "@, escaped_language);
    assert(line.len() > 0);
    assert(!(line.last() == '\r')) by {
        if escaped_language.len() > 0 {
            assert(line.last() == escaped_language.last());
        } else {
            assert(line =~= "language: "@);
        }
    }
    assert forall|i: int| 0 <= i < ms.len() implies !(#[trigger] ms[i]).contains('\n') && (i < ms.len() - 1 ==> !ends_with_cr(ms[i])) by {
        if i < idx {
            assert(ms[i] == ls[i]);
            assert(!ls[i].contains('\n'));
            if i < ls.len() - 1 {
                assert(!ends_with_cr(ls[i]));
            } else {
                reveal_strlit("---");
                assert(ls[i] == "---"@);
                assert(!ends_with_cr(ls[i]));
            }
        } else if i == idx {
            assert(ms[i] == line);
            assert(!ends_with_cr(line));
        } else {
            assert(ms[i] == ls[i - 1]);
            assert(!ls[i - 1].contains('\n'));
            if i - 1 < ls.len() - 1 {
                assert(!ends_with_cr(ls[i - 1]));
            }
        }
    }
    assert(ms.last().len() > 0) by {
        if idx == ls.len() {
            assert(ms.last() == line);
        } else {
            assert(ms.last() == ls.last());
        }
    }
    lemma_lines_of_join(ms);
}

} // verus!
