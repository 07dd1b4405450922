//! Placeholder substitution for HTML pages: every `{name}` whose `name` is a
//! non-empty run of word characters is replaced by that field's value, and a
//! field that was not supplied becomes the empty string. Everything else is
//! copied through unchanged.

use vstd::prelude::*;

verus! {

/// The characters a placeholder name may consist of.
pub open spec fn spec_is_word_char(c: char) -> bool {
    ('a' <= c && c <= 'z') || ('A' <= c && c <= 'Z') || ('0' <= c && c <= '9') || c == '_'
}

/// The first index at or after `k` that is out of range or holds a non-word
/// character: the end of the word run starting at `k`.
pub open spec fn spec_word_run_end(s: Seq<char>, k: int) -> int
    decreases s.len() - k,
{
    if k < 0 || k >= s.len() || !spec_is_word_char(s[k]) {
        k
    } else {
        spec_word_run_end(s, k + 1)
    }
}

/// View of the supplied fields.
pub open spec fn spec_fields_view(fields: Seq<(String, String)>) -> Seq<(Seq<char>, Seq<char>)> {
    fields.map_values(|p: (String, String)| (p.0@, p.1@))
}

/// The value of the first field with this name; a name nobody supplied is
/// the empty string.
pub open spec fn spec_field_lookup(fields: Seq<(Seq<char>, Seq<char>)>, name: Seq<char>) -> Seq<
    char,
>
    decreases fields.len(),
{
    if fields.len() == 0 {
        Seq::empty()
    } else if fields.first().0 == name {
        fields.first().1
    } else {
        spec_field_lookup(fields.drop_first(), name)
    }
}

/// The populated text from position `i` on: a `{`, a non-empty word run and
/// a `}` become the named field's value; any other character is copied.
pub open spec fn spec_populate_from(
    fields: Seq<(Seq<char>, Seq<char>)>,
    s: Seq<char>,
    i: int,
) -> Seq<char>
    decreases s.len() - i,
{
    if i < 0 || i >= s.len() {
        Seq::empty()
    } else if s[i] == '{' {
        let j = spec_word_run_end(s, i + 1);
        if j > i + 1 && j < s.len() && s[j] == '}' {
            spec_field_lookup(fields, s.subrange(i + 1, j)) + spec_populate_from(fields, s, j + 1)
        } else {
            seq![s[i]] + spec_populate_from(fields, s, i + 1)
        }
    } else {
        seq![s[i]] + spec_populate_from(fields, s, i + 1)
    }
}

/// The whole populated text.
pub open spec fn spec_populate(fields: Seq<(Seq<char>, Seq<char>)>, s: Seq<char>) -> Seq<char> {
    spec_populate_from(fields, s, 0)
}

/// Looks a placeholder name up among the supplied fields.
fn field_lookup(fields: &Vec<(String, String)>, name: &String) -> (r: String)
    ensures
        r@ == spec_field_lookup(spec_fields_view(fields@), name@),
{
    let n = fields.len();
    proof {
        assert(spec_fields_view(fields@).subrange(0, n as int) =~= spec_fields_view(fields@));
    }
    let mut k: usize = 0;
    while k < n
        invariant
            k <= n,
            n == fields@.len(),
            spec_field_lookup(spec_fields_view(fields@), name@) == spec_field_lookup(
                spec_fields_view(fields@).subrange(k as int, n as int),
                name@,
            ),
        decreases n - k,
    {
        proof {
            assert(spec_fields_view(fields@).subrange(k as int, n as int).first()
                == spec_fields_view(fields@)[k as int]);
            assert(spec_fields_view(fields@).subrange(k as int, n as int).drop_first()
                =~= spec_fields_view(fields@).subrange(k + 1 as int, n as int));
        }
        if fields[k].0.eq(name) {
            return fields[k].1.clone();
        }
        k = k + 1;
    }
    proof {
        assert(spec_fields_view(fields@).subrange(n as int, n as int).len() == 0);
    }
    String::new()
}

/// Finds the end of the word run starting at `from`.
fn word_run_end(s: &str, from: usize) -> (r: usize)
    requires
        from <= s@.len(),
    ensures
        r == spec_word_run_end(s@, from as int),
        from <= r <= s@.len(),
{
    let n = s.unicode_len();
    let mut j: usize = from;
    while j < n
        invariant
            from <= j <= n,
            n == s@.len(),
            spec_word_run_end(s@, from as int) == spec_word_run_end(s@, j as int),
        decreases n - j,
    {
        let c = s.get_char(j);
        let word = ('a' <= c && c <= 'z') || ('A' <= c && c <= 'Z') || ('0' <= c && c <= '9')
            || c == '_';
        if !word {
            return j;
        }
        j = j + 1;
    }
    j
}

/// Replaces every `{name}` placeholder in `html_string` by the named field's
/// value; a field that is not supplied is replaced by the empty string.
pub fn populate_dynamic_html_fields(fields: &Vec<(String, String)>, html_string: &str) -> (r:
    String)
    ensures
        r@ == spec_populate(spec_fields_view(fields@), html_string@),
{
    let s = html_string;
    let n = s.unicode_len();
    let mut out = String::new();
    let mut i: usize = 0;
    while i < n
        invariant
            i <= n,
            n == s@.len(),
            out@ + spec_populate_from(spec_fields_view(fields@), s@, i as int) == spec_populate(
                spec_fields_view(fields@),
                s@,
            ),
        decreases n - i,
    {
        let ghost fv = spec_fields_view(fields@);
        let c = s.get_char(i);
        if c == '{' {
            let j = word_run_end(s, i + 1);
            if j > i + 1 && j < n && s.get_char(j) == '}' {
                let name = s.substring_char(i + 1, j).to_owned();
                let value = field_lookup(fields, &name);
                out.append(value.as_str());
                proof {
                    assert(out@ + spec_populate_from(fv, s@, j + 1 as int) =~= spec_populate(
                        fv,
                        s@,
                    ));
                }
                i = j + 1;
            } else {
                out.append(s.substring_char(i, i + 1));
                proof {
                    assert(s@.subrange(i as int, i + 1 as int) =~= seq![s@[i as int]]);
                    assert(out@ + spec_populate_from(fv, s@, i + 1 as int) =~= spec_populate(
                        fv,
                        s@,
                    ));
                }
                i = i + 1;
            }
        } else {
            out.append(s.substring_char(i, i + 1));
            proof {
                assert(s@.subrange(i as int, i + 1 as int) =~= seq![s@[i as int]]);
                assert(out@ + spec_populate_from(fv, s@, i + 1 as int) =~= spec_populate(fv, s@));
            }
            i = i + 1;
        }
    }
    proof {
        assert(out@ =~= spec_populate(spec_fields_view(fields@), html_string@));
    }
    out
}

} // verus!
