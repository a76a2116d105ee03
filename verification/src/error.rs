//! Locations within a JSON document and the mismatch records that carry them.
//!
//! A path is an ordered run of segments — the root marker, an object key, or
//! an array index — rendered in dotted form starting at `$`. A mismatch is a
//! path paired with a message; a successful match produces no mismatches.

use vstd::prelude::*;
use vstd::string::{StrSliceExecFns, StringExecFns};

use crate::strutil::{dec_int, join_sep, join_strings, usize_to_string};
use crate::views::{lemma_deep_concat, lemma_deep_len_index, lemma_deep_push,
    lemma_deep_remove_front};

verus! {

/// One step in a location descriptor.
#[derive(Debug, Clone, PartialEq, Eq)]
pub enum JsonPathElement {
    Root,
    Index(usize),
    Key(String),
}

/// The mathematical form of a path segment.
pub enum PathSegModel {
    Root,
    Index(int),
    Key(Seq<char>),
}

impl DeepView for JsonPathElement {
    type V = PathSegModel;

    open spec fn deep_view(&self) -> PathSegModel {
        match self {
            JsonPathElement::Root => PathSegModel::Root,
            JsonPathElement::Index(i) => PathSegModel::Index(*i as int),
            JsonPathElement::Key(k) => PathSegModel::Key(k@),
        }
    }
}

/// Clones a path segment; the copy has the same model.
pub fn clone_element(e: &JsonPathElement) -> (r: JsonPathElement)
    ensures
        r.deep_view() == e.deep_view(),
{
    match e {
        JsonPathElement::Root => JsonPathElement::Root,
        JsonPathElement::Index(i) => JsonPathElement::Index(*i),
        JsonPathElement::Key(k) => JsonPathElement::Key(k.clone()),
    }
}

/// An ordered run of path segments; the default path is just the root marker.
#[derive(Debug, Clone, PartialEq, Eq)]
pub struct JsonPath(pub Vec<JsonPathElement>);

impl DeepView for JsonPath {
    type V = Seq<PathSegModel>;

    open spec fn deep_view(&self) -> Seq<PathSegModel> {
        self.0.deep_view()
    }
}

/// The path of an error raised directly at a matcher's own root.
pub open spec fn root_path() -> Seq<PathSegModel> {
    seq![PathSegModel::Root]
}

/// Concatenation of a child path under a parent, dropping the child's own
/// leading root marker so that no path carries it twice.
pub open spec fn extend_path(parent: Seq<PathSegModel>, child: Seq<PathSegModel>) -> Seq<
    PathSegModel,
> {
    if child.len() > 0 && child[0] == PathSegModel::Root {
        parent + child.drop_first()
    } else {
        parent + child
    }
}

/// The textual form of one segment: `$` for the root, the decimal index, or
/// the key's own text.
pub open spec fn render_seg(seg: PathSegModel) -> Seq<char> {
    match seg {
        PathSegModel::Root => "$"@,
        PathSegModel::Index(i) => dec_int(i),
        PathSegModel::Key(k) => k,
    }
}

/// The dotted rendering of a whole path.
pub open spec fn render_path(p: Seq<PathSegModel>) -> Seq<char> {
    join_sep(p.map_values(|seg: PathSegModel| render_seg(seg)), "."@)
}

fn render_element(e: &JsonPathElement) -> (r: String)
    ensures
        r@ == render_seg(e.deep_view()),
{
    match e {
        JsonPathElement::Root => String::from_str("$"),
        JsonPathElement::Index(i) => usize_to_string(*i),
        JsonPathElement::Key(k) => k.clone(),
    }
}

impl JsonPath {
    /// Wraps a run of segments as a path.
    pub fn from_elements(elements: Vec<JsonPathElement>) -> (r: JsonPath)
        ensures
            r.deep_view() == elements.deep_view(),
    {
        JsonPath(elements)
    }

    /// Appends another path's segments to this one, dropping the other
    /// path's leading root marker if it has one.
    pub fn extend(self, other: JsonPath) -> (r: JsonPath)
        ensures
            r.deep_view() == extend_path(self.deep_view(), other.deep_view()),
    {
        let JsonPath(mut base) = self;
        let JsonPath(mut tail) = other;
        let ghost old_base = base.deep_view();
        let ghost old_tail = tail.deep_view();
        let drop_root = tail.len() > 0 && match &tail[0] {
            JsonPathElement::Root => true,
            _ => false,
        };
        let ghost pre_tail = tail;
        if drop_root {
            let _removed = tail.remove(0);
            proof {
                lemma_deep_remove_front(pre_tail, tail);
            }
        }
        let ghost mid_base = base;
        let ghost mid_tail = tail;
        base.append(&mut tail);
        proof {
            lemma_deep_concat(mid_base, mid_tail, base);
        }
        let r = JsonPath(base);
        proof {
            if drop_root {
                assert(r.deep_view() =~= old_base + old_tail.drop_first());
            } else {
                assert(r.deep_view() =~= old_base + old_tail);
            }
        }
        r
    }

    /// Renders the path in dotted form.
    pub fn render(&self) -> (r: String)
        ensures
            r@ == render_path(self.deep_view()),
    {
        let mut parts: Vec<String> = Vec::new();
        let ghost rendered = self.deep_view().map_values(|seg: PathSegModel| render_seg(seg));
        let mut i: usize = 0;
        while i < self.0.len()
            invariant
                i <= self.0.len(),
                rendered == self.deep_view().map_values(|seg: PathSegModel| render_seg(seg)),
                parts.deep_view() =~= rendered.take(i as int),
            decreases self.0.len() - i,
        {
            let part = render_element(&self.0[i]);
            let ghost pre_parts = parts;
            let ghost part_snapshot = part;
            parts.push(part);
            proof {
                lemma_deep_push(pre_parts, parts, part_snapshot);
                lemma_deep_len_index(self.0);
                assert(self.deep_view()[i as int] == self.0@[i as int].deep_view());
                assert(rendered[i as int] == render_seg(self.deep_view()[i as int]));
                assert(parts.deep_view() =~= rendered.take(i + 1));
            }
            i = i + 1;
        }
        proof {
            assert(parts.deep_view() =~= rendered);
        }
        join_strings(&parts, ".")
    }
}

impl Default for JsonPath {
    /// The default path holds only the root marker.
    fn default() -> (r: JsonPath)
        ensures
            r.deep_view() == root_path(),
    {
        let mut elements: Vec<JsonPathElement> = Vec::new();
        elements.push(JsonPathElement::Root);
        let r = JsonPath(elements);
        proof {
            assert(r.deep_view() =~= root_path());
        }
        r
    }
}

/// The mathematical form of one mismatch record.
pub struct ErrorModel {
    pub path: Seq<PathSegModel>,
    pub message: Seq<char>,
}

/// One mismatch: where it was found, and what was wrong there.
#[derive(Debug, Clone, PartialEq, Eq)]
pub struct JsonMatcherError {
    pub path: JsonPath,
    pub message: String,
}

impl DeepView for JsonMatcherError {
    type V = ErrorModel;

    open spec fn deep_view(&self) -> ErrorModel {
        ErrorModel { path: self.path.deep_view(), message: self.message@ }
    }
}

/// A mismatch recorded at a matcher's own root.
pub open spec fn root_error(msg: Seq<char>) -> ErrorModel {
    ErrorModel { path: root_path(), message: msg }
}

/// A child's mismatch relocated under a parent's segment: the parent prefixes
/// its own locator, stripping the child's leading root marker.
pub open spec fn reroot_error(seg: PathSegModel, e: ErrorModel) -> ErrorModel {
    ErrorModel {
        path: extend_path(seq![PathSegModel::Root, seg], e.path),
        message: e.message,
    }
}

/// All of a child's mismatches relocated under one segment, in order.
pub open spec fn reroot_all(seg: PathSegModel, errs: Seq<ErrorModel>) -> Seq<ErrorModel> {
    errs.map_values(|e: ErrorModel| reroot_error(seg, e))
}

impl JsonMatcherError {
    /// A mismatch at the default (root) path.
    pub fn at_root(message: &str) -> (r: JsonMatcherError)
        ensures
            r.deep_view() == root_error(message@),
    {
        JsonMatcherError { path: JsonPath::default(), message: message.to_owned() }
    }

    /// Renders the mismatch as `<path>: <message>`.
    pub fn render(&self) -> (r: String)
        ensures
            r@ == render_path(self.path.deep_view()) + ": "@ + self.message@,
    {
        let mut r = self.path.render();
        r.append(": ");
        r.append(self.message.as_str());
        r
    }
}

/// Relocates every error of a child match under one segment and appends them.
pub fn push_rerooted(
    errors: &mut Vec<JsonMatcherError>,
    seg: &JsonPathElement,
    child: Vec<JsonMatcherError>,
)
    ensures
        final(errors).deep_view() =~= old(errors).deep_view() + reroot_all(
            seg.deep_view(),
            child.deep_view(),
        ),
{
    let ghost orig = child.deep_view();
    let mut child = child;
    let n = child.len();
    proof {
        assert(orig.len() == n);
        assert(orig.skip(0) =~= orig);
    }
    let mut i: usize = 0;
    while child.len() > 0
        invariant
            child.deep_view() =~= orig.skip(i as int),
            i + child.len() == orig.len(),
            orig.len() <= usize::MAX,
            errors.deep_view() =~= old(errors).deep_view() + reroot_all(
                seg.deep_view(),
                orig.take(i as int),
            ),
        decreases child.len(),
    {
        let ghost pre_child = child;
        let e = child.remove(0);
        proof {
            lemma_deep_remove_front(pre_child, child);
            lemma_deep_len_index(pre_child);
            assert(pre_child.deep_view()[0] == orig.skip(i as int)[0]);
            assert(orig.skip(i as int)[0] == orig[i as int]);
            assert(e.deep_view() == orig[i as int]);
            assert(pre_child.deep_view().drop_first() =~= orig.skip(i + 1));
            assert(child.deep_view() =~= orig.skip(i + 1));
        }
        let JsonMatcherError { path, message } = e;
        let mut prefix: Vec<JsonPathElement> = Vec::new();
        prefix.push(JsonPathElement::Root);
        prefix.push(clone_element(seg));
        proof {
            assert(prefix.deep_view() =~= seq![PathSegModel::Root, seg.deep_view()]);
        }
        let new_path = JsonPath::from_elements(prefix).extend(path);
        let new_err = JsonMatcherError { path: new_path, message };
        let ghost new_err_snapshot = new_err;
        let ghost pre_errors = *errors;
        errors.push(new_err);
        proof {
            lemma_deep_push(pre_errors, *errors, new_err_snapshot);
            assert(new_err_snapshot.deep_view() == reroot_error(seg.deep_view(), orig[i as int]));
            assert(reroot_all(seg.deep_view(), orig.take(i + 1)) =~= reroot_all(
                seg.deep_view(),
                orig.take(i as int),
            ).push(reroot_error(seg.deep_view(), orig[i as int])));
            assert(errors.deep_view() =~= old(errors).deep_view() + reroot_all(
                seg.deep_view(),
                orig.take(i + 1),
            ));
        }
        i = i + 1;
    }
    proof {
        assert(orig.take(i as int) =~= orig);
    }
}

/// The bullet line one mismatch contributes to a failure report.
pub open spec fn bullet_of(e: ErrorModel) -> Seq<char> {
    "  - "@ + render_path(e.path) + ": "@ + e.message
}

/// The full failure report for a non-empty list of mismatches: a header, one
/// bullet per mismatch, then the rendering of the candidate value.
pub open spec fn failure_text(errs: Seq<ErrorModel>, actual: Seq<char>) -> Seq<char> {
    "\nJson matcher failed:\n"@ + join_sep(errs.map_values(|e: ErrorModel| bullet_of(e)), "\n"@)
        + "\n\n"@ + "Actual:\n"@ + actual
}

/// Assembles the failure report, or nothing when there are no mismatches.
/// `actual_pretty` is the caller's rendering of the candidate value.
pub fn failure_message(errors: &Vec<JsonMatcherError>, actual_pretty: &str) -> (r: Option<String>)
    ensures
        match r {
            Option::None => errors@.len() == 0,
            Option::Some(s) => errors@.len() > 0 && s@ == failure_text(
                errors.deep_view(),
                actual_pretty@,
            ),
        },
{
    if errors.len() == 0 {
        return Option::None;
    }
    let ghost bullets_model = errors.deep_view().map_values(|e: ErrorModel| bullet_of(e));
    let mut bullets: Vec<String> = Vec::new();
    let mut i: usize = 0;
    while i < errors.len()
        invariant
            i <= errors.len(),
            bullets_model == errors.deep_view().map_values(|e: ErrorModel| bullet_of(e)),
            bullets.deep_view() =~= bullets_model.take(i as int),
        decreases errors.len() - i,
    {
        let mut line = String::from_str("  - ");
        let body = errors[i].render();
        line.append(body.as_str());
        proof {
            lemma_deep_len_index(*errors);
            assert(errors[i as int].deep_view() == errors.deep_view()[i as int]);
            assert(line@ =~= bullet_of(errors.deep_view()[i as int]));
        }
        let ghost pre_bullets = bullets;
        let ghost line_snapshot = line;
        bullets.push(line);
        proof {
            lemma_deep_push(pre_bullets, bullets, line_snapshot);
            assert(bullets.deep_view() =~= bullets_model.take(i + 1));
        }
        i = i + 1;
    }
    proof {
        assert(bullets.deep_view() =~= bullets_model);
    }
    let joined = join_strings(&bullets, "\n");
    let mut out = String::from_str("\nJson matcher failed:\n");
    out.append(joined.as_str());
    out.append("\n\n");
    out.append("Actual:\n");
    out.append(actual_pretty);
    Option::Some(out)
}

} // verus!
