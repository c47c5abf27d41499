//! Metadata codec: renders and parses a component's descriptor file and
//! renders the dependency manifest, README and bill-of-materials files.
//!
//! The descriptor is line-oriented: `source_license: <value>,` on the first
//! line, `documentation_license: <value>` on the second, and the top-level
//! flag on the third.  The manifest is the `package.json`-style file whose
//! `"license"` field carries the externally visible effective license string.

use vstd::prelude::*;
use crate::text::{
    check_prefix_at,
    find_char_from,
    find_char_from_spec,
    find_match_from_spec,
    find_substring_from,
    lemma_find_char_first,
    lemma_find_char_from_spec,
    lemma_find_match_first,
    match_at,
    no_newline,
    no_quote,
    prefix_at,
    substring_copy,
};

verus! {

/// The fields of a component's descriptor file.
pub struct Descriptor {
    pub source_license: String,
    pub documentation_license: String,
    pub is_top_level: bool,
}

/// The exact text of a descriptor file with the given fields.
pub open spec fn descriptor_text(src: Seq<char>, doc: Seq<char>, top: bool) -> Seq<char> {
    "source_license: "@ + src + ",\n"@ + "documentation_license: "@ + doc + "\n"@ + (if top {
        "is_top_level: true\n"@
    } else {
        "is_top_level: false\n"@
    })
}

/// Fields that can be stored in a descriptor: license names without line
/// breaks.
pub open spec fn wf_descriptor_fields(src: Seq<char>, doc: Seq<char>) -> bool {
    no_newline(src) && no_newline(doc)
}

/// Whether `text` is a well-formed descriptor file: the first line holds the
/// source license and a trailing comma, the second the documentation license,
/// the third the top-level flag, and nothing follows.
pub open spec fn is_descriptor_text(text: Seq<char>) -> bool {
    let l1 = "source_license: "@.len() as int;
    let l2 = "documentation_license: "@.len() as int;
    let i0 = find_char_from_spec(text, '\n', 0);
    let i1 = find_char_from_spec(text, '\n', i0 + 1);
    &&& prefix_at(text, 0, "source_license: "@)
    &&& i0 >= l1 + 1
    &&& text[i0 - 1] == ','
    &&& prefix_at(text, i0 + 1, "documentation_license: "@)
    &&& i1 >= i0 + 1 + l2
    &&& ((prefix_at(text, i1 + 1, "is_top_level: true\n"@) && text.len() == i1 + 1
        + "is_top_level: true\n"@.len()) || (prefix_at(text, i1 + 1, "is_top_level: false\n"@)
        && text.len() == i1 + 1 + "is_top_level: false\n"@.len()))
}

/// The source license stored in a well-formed descriptor text.
pub open spec fn descriptor_source_of(text: Seq<char>) -> Seq<char> {
    let l1 = "source_license: "@.len() as int;
    let i0 = find_char_from_spec(text, '\n', 0);
    text.subrange(l1, i0 - 1)
}

/// The documentation license stored in a well-formed descriptor text.
pub open spec fn descriptor_doc_of(text: Seq<char>) -> Seq<char> {
    let l2 = "documentation_license: "@.len() as int;
    let i0 = find_char_from_spec(text, '\n', 0);
    let i1 = find_char_from_spec(text, '\n', i0 + 1);
    text.subrange(i0 + 1 + l2, i1)
}

/// The top-level flag stored in a well-formed descriptor text.
pub open spec fn descriptor_top_of(text: Seq<char>) -> bool {
    let i0 = find_char_from_spec(text, '\n', 0);
    let i1 = find_char_from_spec(text, '\n', i0 + 1);
    prefix_at(text, i1 + 1, "is_top_level: true\n"@)
}

/// Renders the descriptor file for the given fields.
pub fn render_descriptor(d: &Descriptor) -> (r: String)
    ensures
        r@ == descriptor_text(d.source_license@, d.documentation_license@, d.is_top_level),
{
    let mut r = String::from_str("source_license: ");
    r.append(d.source_license.as_str());
    r.append(",\n");
    r.append("documentation_license: ");
    r.append(d.documentation_license.as_str());
    r.append("\n");
    if d.is_top_level {
        r.append("is_top_level: true\n");
    } else {
        r.append("is_top_level: false\n");
    }
    proof {
        assert(r@ =~= descriptor_text(
            d.source_license@,
            d.documentation_license@,
            d.is_top_level,
        ));
    }
    r
}

/// Parses a descriptor file.  Succeeds exactly on well-formed descriptor
/// texts; the parsed fields reassemble to the input text, so the codec loses
/// nothing.
pub fn parse_descriptor(text: &str) -> (r: Option<Descriptor>)
    ensures
        r is Some <==> is_descriptor_text(text@),
        match r {
            Some(d) => {
                &&& d.source_license@ == descriptor_source_of(text@)
                &&& d.documentation_license@ == descriptor_doc_of(text@)
                &&& d.is_top_level == descriptor_top_of(text@)
                &&& wf_descriptor_fields(d.source_license@, d.documentation_license@)
                &&& text@ == descriptor_text(
                    d.source_license@,
                    d.documentation_license@,
                    d.is_top_level,
                )
            },
            None => true,
        },
{
    let l1 = "source_license: ".unicode_len();
    let l2 = "documentation_license: ".unicode_len();
    let n = text.unicode_len();
    if !check_prefix_at(text, 0, "source_license: ") {
        return None;
    }
    let i0 = match find_char_from(text, '\n', 0) {
        Some(i) => i,
        None => {
            return None;
        },
    };
    proof {
        lemma_find_char_from_spec(text@, '\n', 0);
    }
    if i0 <= l1 {
        return None;
    }
    if text.get_char(i0 - 1) != ',' {
        return None;
    }
    if !check_prefix_at(text, i0 + 1, "documentation_license: ") {
        return None;
    }
    let i1 = match find_char_from(text, '\n', i0 + 1) {
        Some(i) => i,
        None => {
            return None;
        },
    };
    proof {
        lemma_find_char_from_spec(text@, '\n', i0 + 1);
        assert(i0 + 1 <= i1 < n);
    }
    if i1 - i0 - 1 < l2 {
        return None;
    }
    let top: bool;
    let tail_true = "is_top_level: true\n";
    let tail_false = "is_top_level: false\n";
    if check_prefix_at(text, i1 + 1, tail_true) && n - i1 - 1 == tail_true.unicode_len() {
        top = true;
    } else if check_prefix_at(text, i1 + 1, tail_false) && n - i1 - 1
        == tail_false.unicode_len() {
        top = false;
    } else {
        return None;
    }
    let source_license = substring_copy(text, l1, i0 - 1);
    let documentation_license = substring_copy(text, i0 + 1 + l2, i1);
    proof {
        let t = text@;
        let src = source_license@;
        let doc = documentation_license@;
        let la = l1 as int;
        let lb = l2 as int;
        let p0 = i0 as int;
        let p1 = i1 as int;
        let len = n as int;
        let tail: Seq<char> = if top {
            "is_top_level: true\n"@
        } else {
            "is_top_level: false\n"@
        };
        let d = descriptor_text(src, doc, top);
        reveal_strlit(",\n");
        reveal_strlit("\n");
        assert(",\n"@.len() == 2);
        assert("\n"@.len() == 1);
        assert(",\n"@[0] == ',' && ",\n"@[1] == '\n');
        assert("\n"@[0] == '\n');
        assert(t.subrange(p1 + 1, len) =~= tail) by {
            assert(prefix_at(t, p1 + 1, tail));
            assert(tail.len() == len - p1 - 1);
            assert(t.subrange(p1 + 1, p1 + 1 + tail.len() as int) == tail);
        }
        assert(d.len() == len);
        assert forall|k: int| 0 <= k < len implies t[k] == d[k] by {
            if k < la {
                assert(t.subrange(0, la)[k] == t[k]);
                assert(d[k] == "source_license: "@[k]);
            } else if k < p0 - 1 {
                assert(d[k] == src[k - la]);
                assert(src[k - la] == t[k]);
            } else if k == p0 - 1 {
                assert(d[k] == ",\n"@[0]);
            } else if k == p0 {
                assert(d[k] == ",\n"@[1]);
            } else if k < p0 + 1 + lb {
                assert(t.subrange(p0 + 1, p0 + 1 + lb)[k - (p0 + 1)] == t[k]);
                assert(d[k] == "documentation_license: "@[k - (p0 + 1)]);
            } else if k < p1 {
                assert(d[k] == doc[k - (p0 + 1 + lb)]);
                assert(doc[k - (p0 + 1 + lb)] == t[k]);
            } else if k == p1 {
                assert(d[k] == "\n"@[0]);
            } else {
                assert(t.subrange(p1 + 1, len)[k - (p1 + 1)] == t[k]);
                assert(d[k] == tail[k - (p1 + 1)]);
            }
        }
        assert(no_newline(src));
        assert(no_newline(doc));
        assert(t =~= d);
        if !top {
            assert(!prefix_at(t, p1 + 1, "is_top_level: true\n"@)) by {
                reveal_strlit("is_top_level: true\n");
                reveal_strlit("is_top_level: false\n");
                assert(t.subrange(p1 + 1, len)[14] == t[p1 + 1 + 14]);
                assert(t[p1 + 1 + 14] == 'f');
                if prefix_at(t, p1 + 1, "is_top_level: true\n"@) {
                    assert(t.subrange(p1 + 1, p1 + 1 + 19)[14] == t[p1 + 1 + 14]);
                    assert(t[p1 + 1 + 14] == 't');
                }
            }
        }
    }
    Some(Descriptor { source_license, documentation_license, is_top_level: top })
}

/// A rendered descriptor always parses back to its own fields: the codec
/// loses nothing in either direction.
pub proof fn lemma_descriptor_text_parses(src: Seq<char>, doc: Seq<char>, top: bool)
    requires
        wf_descriptor_fields(src, doc),
    ensures
        is_descriptor_text(descriptor_text(src, doc, top)),
        descriptor_source_of(descriptor_text(src, doc, top)) == src,
        descriptor_doc_of(descriptor_text(src, doc, top)) == doc,
        descriptor_top_of(descriptor_text(src, doc, top)) == top,
{
    let t = descriptor_text(src, doc, top);
    reveal_strlit("source_license: ");
    reveal_strlit(",\n");
    reveal_strlit("documentation_license: ");
    reveal_strlit("\n");
    reveal_strlit("is_top_level: true\n");
    reveal_strlit("is_top_level: false\n");
    assert("source_license: "@.len() == 16);
    assert(",\n"@.len() == 2);
    assert("documentation_license: "@.len() == 23);
    assert("\n"@.len() == 1);
    assert("is_top_level: true\n"@.len() == 19);
    assert("is_top_level: false\n"@.len() == 20);
    let ls = src.len() as int;
    let ld = doc.len() as int;
    let tail: Seq<char> = if top {
        "is_top_level: true\n"@
    } else {
        "is_top_level: false\n"@
    };
    let i0 = 16 + ls + 1;
    let i1 = i0 + 1 + 23 + ld;
    assert(t.len() == i1 + 1 + tail.len());
    assert(t[i0] == '\n');
    assert(t[i0 - 1] == ',');
    assert(t[i1] == '\n');
    assert(no_newline("source_license: "@));
    assert(no_newline("documentation_license: "@));
    assert forall|j: int| 0 <= j < i0 implies t[j] != '\n' by {
        if j < 16 {
            assert(t[j] == "source_license: "@[j]);
        } else if j < 16 + ls {
            assert(t[j] == src[j - 16]);
        } else {
            assert(t[j] == ',');
        }
    }
    lemma_find_char_first(t, '\n', 0, i0);
    assert forall|j: int| i0 + 1 <= j < i1 implies t[j] != '\n' by {
        if j < i0 + 24 {
            assert(t[j] == "documentation_license: "@[j - (i0 + 1)]);
        } else {
            assert(t[j] == doc[j - (i0 + 24)]);
        }
    }
    lemma_find_char_first(t, '\n', i0 + 1, i1);
    assert(t.subrange(0, 16) =~= "source_license: "@);
    assert(t.subrange(16, i0 - 1) =~= src);
    assert(t.subrange(i0 + 1, i0 + 24) =~= "documentation_license: "@);
    assert(t.subrange(i0 + 24, i1) =~= doc);
    assert(t.subrange(i1 + 1, t.len() as int) =~= tail);
    assert(prefix_at(t, i1 + 1, tail));
    if !top {
        assert(!prefix_at(t, i1 + 1, "is_top_level: true\n"@)) by {
            if prefix_at(t, i1 + 1, "is_top_level: true\n"@) {
                assert(t.subrange(i1 + 1, i1 + 1 + 19)[14] == t[i1 + 15]);
                assert(t[i1 + 15] == 't');
                assert(t.subrange(i1 + 1, t.len() as int)[14] == t[i1 + 15]);
                assert(tail[14] == 'f');
            }
        }
    }
}

/// The exact text of a freshly generated dependency manifest for a component
/// named `name` whose effective license string is `license` (parentheses
/// included).
pub open spec fn manifest_text(name: Seq<char>, license: Seq<char>) -> Seq<char> {
    "{\n  \"name\": \""@ + name
        + "\",\n  \"version\": \"1.0.0\",\n  \"description\": \"Sliderule component.\",\n  \"license\": \""@
        + license + "\",\n  \"dependencies\": {\n  }\n}\n"@
}

/// Renders the dependency manifest for a fresh component.
pub fn render_manifest(name: &str, license: &str) -> (r: String)
    ensures
        r@ == manifest_text(name@, license@),
{
    let mut r = String::from_str("{\n  \"name\": \"");
    r.append(name);
    r.append(
        "\",\n  \"version\": \"1.0.0\",\n  \"description\": \"Sliderule component.\",\n  \"license\": \"",
    );
    r.append(license);
    r.append("\",\n  \"dependencies\": {\n  }\n}\n");
    proof {
        assert(r@ =~= manifest_text(name@, license@));
    }
    r
}

/// Start of the value of the `"license"` field in a manifest text: the index
/// just after the first occurrence of the field marker, or `-1` when the
/// marker is missing.
pub open spec fn manifest_license_start(text: Seq<char>) -> int {
    let p = find_match_from_spec(text, "\"license\": \""@, 0);
    if p == -1 {
        -1
    } else {
        p + "\"license\": \""@.len()
    }
}

/// End of the value of the `"license"` field: the index of the closing quote,
/// or `-1` when there is none.
pub open spec fn manifest_license_end(text: Seq<char>) -> int {
    if manifest_license_start(text) == -1 {
        -1
    } else {
        find_char_from_spec(text, '"', manifest_license_start(text))
    }
}

/// Whether a manifest text carries a readable `"license"` field.
pub open spec fn manifest_has_license(text: Seq<char>) -> bool {
    manifest_license_start(text) != -1 && manifest_license_end(text) != -1
}

/// The value of the `"license"` field of a manifest text.
pub open spec fn manifest_license_of(text: Seq<char>) -> Seq<char> {
    text.subrange(manifest_license_start(text), manifest_license_end(text))
}

/// Looks up the `"license"` field of a manifest: the text between the first
/// `"license": "` marker and the next quote.
pub fn extract_manifest_license(text: &str) -> (r: Option<String>)
    ensures
        r is Some <==> manifest_has_license(text@),
        r is Some ==> r->0@ == manifest_license_of(text@),
{
    let n = text.unicode_len();
    let marker = "\"license\": \"";
    let p = match find_substring_from(text, marker, 0) {
        Some(p) => p,
        None => {
            return None;
        },
    };
    assert(p + marker@.len() <= n);
    let v0 = p + marker.unicode_len();
    let k = match find_char_from(text, '"', v0) {
        Some(k) => k,
        None => {
            return None;
        },
    };
    proof {
        lemma_find_char_from_spec(text@, '"', v0 as int);
    }
    Some(substring_copy(text, v0, k))
}

/// Text of `text` with the value of its `"license"` field replaced by
/// `license`; everything else is kept, byte for byte.
pub open spec fn manifest_with_license(text: Seq<char>, license: Seq<char>) -> Seq<char> {
    text.subrange(0, manifest_license_start(text)) + license + text.subrange(
        manifest_license_end(text),
        text.len() as int,
    )
}

/// Rewrites the `"license"` field of a manifest in place, leaving every other
/// character unchanged.  Fails exactly when the manifest has no readable
/// `"license"` field.
pub fn update_manifest_license(text: &str, license: &str) -> (r: Option<String>)
    ensures
        r is Some <==> manifest_has_license(text@),
        r is Some ==> r->0@ == manifest_with_license(text@, license@),
{
    let n = text.unicode_len();
    let marker = "\"license\": \"";
    let p = match find_substring_from(text, marker, 0) {
        Some(p) => p,
        None => {
            return None;
        },
    };
    assert(p + marker@.len() <= n);
    let v0 = p + marker.unicode_len();
    let k = match find_char_from(text, '"', v0) {
        Some(k) => k,
        None => {
            return None;
        },
    };
    proof {
        lemma_find_char_from_spec(text@, '"', v0 as int);
    }
    let mut r = substring_copy(text, 0, v0);
    r.append(license);
    let back = substring_copy(text, k, n);
    r.append(back.as_str());
    proof {
        assert(r@ =~= manifest_with_license(text@, license@));
    }
    Some(r)
}

/// A freshly rendered manifest always carries a readable license field equal
/// to the license it was rendered with, provided neither the component name
/// nor the license holds a double quote: the field marker occurs nowhere
/// earlier, so the codec's field lookup finds exactly the stored value.
#[verifier::rlimit(100)]
pub proof fn lemma_manifest_text_license(name: Seq<char>, license: Seq<char>)
    requires
        no_quote(name),
        no_quote(license),
    ensures
        manifest_has_license(manifest_text(name, license)),
        manifest_license_of(manifest_text(name, license)) == license,
{
    let t = manifest_text(name, license);
    let marker = "\"license\": \""@;
    let p1 = "{\n  \"name\": \""@;
    let mid =
        "\",\n  \"version\": \"1.0.0\",\n  \"description\": \"Sliderule component.\",\n  \"license\": \""@;
    let tailp = "\",\n  \"dependencies\": {\n  }\n}\n"@;
    reveal_strlit("{\n  \"name\": \"");
    reveal_strlit(
        "\",\n  \"version\": \"1.0.0\",\n  \"description\": \"Sliderule component.\",\n  \"license\": \"",
    );
    reveal_strlit("\",\n  \"dependencies\": {\n  }\n}\n");
    reveal_strlit("\"license\": \"");
    assert(p1.len() == 13);
    assert(mid.len() == 80);
    assert(marker.len() == 12);
    let ln = name.len() as int;
    let ll = license.len() as int;
    let m0 = 13 + ln;
    let pstar = m0 + 68;
    let v0 = m0 + 80;
    // the marker is the last 12 characters of the middle template piece
    assert(forall|k: int| 0 <= k < 12 ==> mid[68 + k] == marker[k]);
    assert(t.subrange(pstar, pstar + 12) =~= marker) by {
        assert(forall|k: int| 0 <= k < 12 ==> #[trigger] t[pstar + k] == mid[68 + k]);
    }
    assert(match_at(t, marker, pstar));
    // the quotes of the middle piece before the marker
    assert(forall|q: int|
        0 <= q < 68 && mid[q] == '"' ==> q == 0 || q == 5 || q == 13 || q == 16 || q == 22 || q
            == 27 || q == 39 || q == 42 || q == 63);
    // nowhere earlier does the marker match
    assert forall|j: int| 0 <= j < pstar implies !match_at(t, marker, j) by {
        if match_at(t, marker, j) {
            assert(t.subrange(j, j + 12) == marker);
            assert(t[j] == t.subrange(j, j + 12)[0]);
            assert(t[j + 1] == t.subrange(j, j + 12)[1]);
            assert(t[j + 8] == t.subrange(j, j + 12)[8]);
            assert(t[j + 9] == t.subrange(j, j + 12)[9]);
            assert(t[j] == '"' && t[j + 1] == 'l' && t[j + 8] == '"' && t[j + 9] == ':');
            if j < 13 {
                assert(t[j] == p1[j]);
                assert(j == 4 || j == 9 || j == 12);
                if j == 4 {
                    assert(t[5] == p1[5] && p1[5] == 'n');
                } else if j == 9 {
                    assert(t[10] == p1[10] && p1[10] == ':');
                } else {
                    if ln == 0 {
                        assert(t[13] == mid[0] && mid[0] == '"');
                    } else if ln == 1 {
                        assert(t[20] == mid[6] && mid[6] == 'v');
                    } else if ln == 2 {
                        assert(t[20] == mid[5]);
                        assert(t[21] == mid[6] && mid[6] == 'v');
                    } else if ln == 3 {
                        assert(t[20] == mid[4] && mid[4] == ' ');
                    } else if ln == 4 {
                        assert(t[20] == mid[3] && mid[3] == ' ');
                    } else if ln == 5 {
                        assert(t[20] == mid[2] && mid[2] == '\n');
                    } else if ln == 6 {
                        assert(t[20] == mid[1] && mid[1] == ',');
                    } else if ln == 7 {
                        assert(t[20] == mid[0]);
                        assert(t[21] == mid[1] && mid[1] == ',');
                    } else {
                        assert(t[20] == name[7]);
                    }
                }
            } else if j < m0 {
                assert(t[j] == name[j - 13]);
            } else {
                let q = j - m0;
                assert(t[j] == mid[q]);
                assert(q == 0 || q == 5 || q == 13 || q == 16 || q == 22 || q == 27 || q == 39
                    || q == 42 || q == 63);
                assert(t[j + 1] == mid[q + 1]);
                assert(mid[1] == ',' && mid[6] == 'v' && mid[14] == ':' && mid[17] == '1'
                    && mid[23] == ',' && mid[28] == 'd' && mid[40] == ':' && mid[43] == 'S'
                    && mid[64] == ',');
            }
        }
    }
    lemma_find_match_first(t, marker, 0, pstar);
    assert(manifest_license_start(t) == v0);
    // the first quote after the value's start closes the value
    assert(t[v0 + ll] == tailp[0] && tailp[0] == '"');
    assert forall|j: int| v0 <= j < v0 + ll implies t[j] != '"' by {
        assert(t[j] == license[j - v0]);
    }
    lemma_find_char_first(t, '"', v0, v0 + ll);
    assert(manifest_license_end(t) == v0 + ll);
    assert(t.subrange(v0, v0 + ll) =~= license);
}

/// The exact text of a fresh component README.
pub open spec fn readme_text(name: Seq<char>) -> Seq<char> {
    "# "@ + name + "\nNew Sliderule component.\n"@
}

/// Renders the README for a fresh component.
pub fn render_readme(name: &str) -> (r: String)
    ensures
        r@ == readme_text(name@),
{
    let mut r = String::from_str("# ");
    r.append(name);
    r.append("\nNew Sliderule component.\n");
    proof {
        assert(r@ =~= readme_text(name@));
    }
    r
}

/// The exact text of a fresh component's bill-of-materials file: a header
/// naming the component, a parts list with one placeholder part, and the
/// ordering list.
pub open spec fn bom_text(name: Seq<char>) -> Seq<char> {
    "# Bill of Materials Data for "@ + name
        + "\nparts:\n  component_1:\n    options:\n    - specific_component_variant\n    default_option: 0\n    quantity: 1\n    quantity_units: part\n    name: component_1\n    notes: ''\n\norder:\n  -component_1\n"@
}

/// Renders the bill-of-materials file for a fresh component.
pub fn render_bom(name: &str) -> (r: String)
    ensures
        r@ == bom_text(name@),
{
    let mut r = String::from_str("# Bill of Materials Data for ");
    r.append(name);
    r.append(
        "\nparts:\n  component_1:\n    options:\n    - specific_component_variant\n    default_option: 0\n    quantity: 1\n    quantity_units: part\n    name: component_1\n    notes: ''\n\norder:\n  -component_1\n",
    );
    proof {
        assert(r@ =~= bom_text(name@));
    }
    r
}

} // verus!
