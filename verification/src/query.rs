//! The filters that key paged list retrieval: one for recipes, one for
//! pantry items. Every field but the page takes part in search equality,
//! and each filter renders as the query string of its list endpoint, with
//! multi-valued label filters as repeated same-named parameters.

use crate::paged::PageFilter;
use crate::urlquery;
use vstd::prelude::*;

verus! {

/// The query rendering of one optional text parameter: nothing when the
/// field is unset, else the (ASCII) prefix `&name=` and the encoded value.
pub open spec fn spec_text_param(prefix: Seq<char>, value: Option<String>) -> Seq<u8> {
    match value {
        Some(s) => urlquery::ascii_bytes(prefix) + urlquery::spec_urlencode(
            vstd::utf8::encode_utf8(s@),
        ),
        None => Seq::empty(),
    }
}

/// The query rendering of one optional flag: nothing when the field is
/// unset, else the prefix `&name=` and `true` or `false`.
pub open spec fn spec_bool_param(prefix: Seq<char>, value: Option<bool>) -> Seq<u8> {
    match value {
        Some(b) => urlquery::ascii_bytes(prefix) + (if b {
            urlquery::ascii_bytes("true"@)
        } else {
            urlquery::ascii_bytes("false"@)
        }),
        None => Seq::empty(),
    }
}

/// The query rendering of a list of labels: one `&label=` parameter per
/// label, in order, each value encoded.
pub open spec fn spec_labels_list(ls: Seq<String>) -> Seq<u8>
    decreases ls.len(),
{
    if ls.len() == 0 {
        Seq::empty()
    } else {
        spec_labels_list(ls.drop_last()) + urlquery::ascii_bytes("&label="@)
            + urlquery::spec_urlencode(vstd::utf8::encode_utf8(ls.last()@))
    }
}

/// The query rendering of an optional list of labels.
pub open spec fn spec_labels_param(value: Option<Vec<String>>) -> Seq<u8> {
    match value {
        Some(v) => spec_labels_list(v@),
        None => Seq::empty(),
    }
}

/// Append one optional text parameter.
fn append_text_param(out: &mut Vec<u8>, prefix: &str, value: &Option<String>)
    requires
        prefix.is_ascii(),
    ensures
        final(out)@ == old(out)@ + spec_text_param(prefix@, *value),
{
    match value {
        Some(s) => {
            urlquery::append_ascii(out, prefix);
            urlquery::urlencode_into(out, s.as_str().as_bytes());
            proof {
                assert(old(out)@ + urlquery::ascii_bytes(prefix@) + urlquery::spec_urlencode(
                    vstd::utf8::encode_utf8(s@),
                ) =~= old(out)@ + spec_text_param(prefix@, *value));
            }
        },
        None => {
            proof {
                assert(out@ =~= old(out)@ + spec_text_param(prefix@, *value));
            }
        },
    }
}

/// Append one optional flag parameter.
fn append_bool_param(out: &mut Vec<u8>, prefix: &str, value: &Option<bool>)
    requires
        prefix.is_ascii(),
    ensures
        final(out)@ == old(out)@ + spec_bool_param(prefix@, *value),
{
    proof {
        reveal_strlit("true");
        reveal_strlit("false");
        assert("true".is_ascii());
        assert("false".is_ascii());
    }
    match value {
        Some(b) => {
            urlquery::append_ascii(out, prefix);
            if *b {
                urlquery::append_ascii(out, "true");
            } else {
                urlquery::append_ascii(out, "false");
            }
            proof {
                assert(out@ =~= old(out)@ + spec_bool_param(prefix@, *value));
            }
        },
        None => {
            proof {
                assert(out@ =~= old(out)@ + spec_bool_param(prefix@, *value));
            }
        },
    }
}

/// Append the label parameters, one per label.
fn append_labels_param(out: &mut Vec<u8>, value: &Option<Vec<String>>)
    ensures
        final(out)@ == old(out)@ + spec_labels_param(*value),
{
    proof {
        reveal_strlit("&label=");
        assert("&label=".is_ascii());
    }
    match value {
        Some(v) => {
            let n = v.len();
            let mut i: usize = 0;
            while i < n
                invariant
                    0 <= i <= n,
                    n == v@.len(),
                    out@ == old(out)@ + spec_labels_list(v@.take(i as int)),
                decreases n - i,
            {
                proof {
                    reveal_strlit("&label=");
                    assert("&label=".is_ascii());
                    assert(v@.take(i + 1).drop_last() =~= v@.take(i as int));
                    assert(v@.take(i + 1).last() == v@[i as int]);
                }
                urlquery::append_ascii(out, "&label=");
                urlquery::urlencode_into(out, v[i].as_str().as_bytes());
                proof {
                    assert(out@ =~= old(out)@ + spec_labels_list(v@.take(i + 1)));
                }
                i += 1;
            }
            proof {
                assert(v@.take(n as int) =~= v@);
            }
        },
        None => {
            proof {
                assert(out@ =~= old(out)@ + spec_labels_param(*value));
            }
        },
    }
}

/// The contents of an optional text field.
pub open spec fn opt_text_view(o: Option<String>) -> Option<Seq<char>> {
    match o {
        Some(s) => Some(s@),
        None => None,
    }
}

/// The contents of a list of labels.
pub open spec fn labels_view(v: Seq<String>) -> Seq<Seq<char>> {
    v.map_values(|s: String| s@)
}

/// The contents of an optional list of labels.
pub open spec fn opt_labels_view(o: Option<Vec<String>>) -> Option<Seq<Seq<char>>> {
    match o {
        Some(v) => Some(labels_view(v@)),
        None => None,
    }
}

/// Are two optional text fields equal in content?
fn eq_opt_string(a: &Option<String>, b: &Option<String>) -> (r: bool)
    ensures
        r == (opt_text_view(*a) == opt_text_view(*b)),
{
    match (a, b) {
        (Some(x), Some(y)) => {
            let r = x.eq(y);
            proof {
                assert(opt_text_view(*a) == Some(x@));
                assert(opt_text_view(*b) == Some(y@));
            }
            r
        },
        (None, None) => true,
        _ => false,
    }
}

/// Are two optional label lists equal in content and order?
fn eq_opt_labels(a: &Option<Vec<String>>, b: &Option<Vec<String>>) -> (r: bool)
    ensures
        r == (opt_labels_view(*a) == opt_labels_view(*b)),
{
    match (a, b) {
        (Some(x), Some(y)) => {
            let ghost xv = labels_view(x@);
            let ghost yv = labels_view(y@);
            proof {
                assert(opt_labels_view(*a) == Some(xv));
                assert(opt_labels_view(*b) == Some(yv));
            }
            if x.len() != y.len() {
                proof {
                    assert(xv.len() != yv.len());
                }
                return false;
            }
            let n = x.len();
            let mut i: usize = 0;
            while i < n
                invariant
                    0 <= i <= n,
                    n == x.len() == y.len(),
                    xv == labels_view(x@),
                    yv == labels_view(y@),
                    opt_labels_view(*a) == Some(xv),
                    opt_labels_view(*b) == Some(yv),
                    forall|k: int| 0 <= k < i ==> xv[k] == yv[k],
                decreases n - i,
            {
                let same = x[i].eq(&y[i]);
                proof {
                    assert(xv[i as int] == x@[i as int]@);
                    assert(yv[i as int] == y@[i as int]@);
                }
                if !same {
                    proof {
                        assert(xv[i as int] != yv[i as int]);
                        assert(xv != yv);
                    }
                    return false;
                }
                i += 1;
            }
            proof {
                assert(xv =~= yv);
            }
            true
        },
        (None, None) => true,
        _ => false,
    }
}

/// Are two optional flags equal?
fn eq_opt_bool(a: &Option<bool>, b: &Option<bool>) -> (r: bool)
    ensures
        r == (*a == *b),
{
    match (a, b) {
        (Some(x), Some(y)) => *x == *y,
        (None, None) => true,
        _ => false,
    }
}

/// What a recipe listing is filtered by.
#[derive(Debug, Clone)]
pub struct RecipesFilter {
    pub page: usize,
    pub per_page: usize,
    pub title: Option<String>,
    pub labels: Option<Vec<String>>,
    pub freezable: Option<bool>,
    pub microwave_only: Option<bool>,
}

impl Default for RecipesFilter {
    /// The first page, twenty items per page, nothing filtered.
    fn default() -> (r: Self)
        ensures
            r.page == 1,
            r.per_page == 20,
            r.title is None,
            r.labels is None,
            r.freezable is None,
            r.microwave_only is None,
    {
        Self {
            page: 1,
            per_page: 20,
            title: None,
            labels: None,
            freezable: None,
            microwave_only: None,
        }
    }
}

impl RecipesFilter {
    /// The query string the filter denotes, byte for byte: `page` and
    /// `perPage` always, then each set field in declaration order, with
    /// one `label` parameter per label and every value form-urlencoded.
    pub open spec fn spec_query(&self) -> Seq<u8> {
        urlquery::ascii_bytes("page="@) + urlquery::dec_bytes(self.page as nat)
            + urlquery::ascii_bytes("&perPage="@) + urlquery::dec_bytes(self.per_page as nat)
            + spec_text_param("&title="@, self.title) + spec_labels_param(self.labels)
            + spec_bool_param("&freezable="@, self.freezable) + spec_bool_param(
            "&microwaveOnly="@,
            self.microwave_only,
        )
    }

    /// Render the filter as its list endpoint's query string.
    pub fn to_query_bytes(&self) -> (r: Vec<u8>)
        ensures
            r@ == self.spec_query(),
    {
        proof {
            reveal_strlit("page=");
            reveal_strlit("&perPage=");
            reveal_strlit("&title=");
            reveal_strlit("&freezable=");
            reveal_strlit("&microwaveOnly=");
            assert("page=".is_ascii());
            assert("&perPage=".is_ascii());
            assert("&title=".is_ascii());
            assert("&freezable=".is_ascii());
            assert("&microwaveOnly=".is_ascii());
        }
        let mut out: Vec<u8> = Vec::new();
        urlquery::append_ascii(&mut out, "page=");
        urlquery::append_usize(&mut out, self.page);
        urlquery::append_ascii(&mut out, "&perPage=");
        urlquery::append_usize(&mut out, self.per_page);
        append_text_param(&mut out, "&title=", &self.title);
        append_labels_param(&mut out, &self.labels);
        append_bool_param(&mut out, "&freezable=", &self.freezable);
        append_bool_param(&mut out, "&microwaveOnly=", &self.microwave_only);
        proof {
            assert(out@ =~= self.spec_query());
        }
        out
    }
}

impl PageFilter for RecipesFilter {
    open spec fn spec_page(&self) -> usize {
        self.page
    }

    open spec fn spec_per_page(&self) -> usize {
        self.per_page
    }

    open spec fn spec_same_search(&self, other: &Self) -> bool {
        &&& self.per_page == other.per_page
        &&& opt_text_view(self.title) == opt_text_view(other.title)
        &&& opt_labels_view(self.labels) == opt_labels_view(other.labels)
        &&& self.freezable == other.freezable
        &&& self.microwave_only == other.microwave_only
    }

    open spec fn spec_with_page(&self, page: usize) -> Self {
        RecipesFilter {
            page,
            per_page: self.per_page,
            title: self.title,
            labels: self.labels,
            freezable: self.freezable,
            microwave_only: self.microwave_only,
        }
    }

    proof fn lemma_search_equivalence(a: &Self, b: &Self, c: &Self, page: usize) {
    }

    fn page(&self) -> usize {
        self.page
    }

    fn per_page(&self) -> usize {
        self.per_page
    }

    fn same_search(&self, other: &Self) -> bool {
        let per_page_eq = self.per_page == other.per_page;
        let title_eq = eq_opt_string(&self.title, &other.title);
        let labels_eq = eq_opt_labels(&self.labels, &other.labels);
        let freezable_eq = eq_opt_bool(&self.freezable, &other.freezable);
        let microwave_eq = eq_opt_bool(&self.microwave_only, &other.microwave_only);
        per_page_eq && title_eq && labels_eq && freezable_eq && microwave_eq
    }

    fn set_page(&mut self, page: usize) {
        self.page = page;
    }
}

/// What a pantry listing is filtered by.
#[derive(Debug, Clone)]
pub struct PantryFilter {
    pub page: usize,
    pub per_page: usize,
    pub name: Option<String>,
    pub labels: Option<Vec<String>>,
    pub location_id: Option<String>,
    pub expired: Option<bool>,
}

impl Default for PantryFilter {
    /// The first page, twenty items per page, nothing filtered.
    fn default() -> (r: Self)
        ensures
            r.page == 1,
            r.per_page == 20,
            r.name is None,
            r.labels is None,
            r.location_id is None,
            r.expired is None,
    {
        Self { page: 1, per_page: 20, name: None, labels: None, location_id: None, expired: None }
    }
}

impl PantryFilter {
    /// The query string the filter denotes, byte for byte: `page` and
    /// `perPage` always, then each set field in declaration order, with
    /// one `label` parameter per label and every value form-urlencoded.
    pub open spec fn spec_query(&self) -> Seq<u8> {
        urlquery::ascii_bytes("page="@) + urlquery::dec_bytes(self.page as nat)
            + urlquery::ascii_bytes("&perPage="@) + urlquery::dec_bytes(self.per_page as nat)
            + spec_text_param("&name="@, self.name) + spec_labels_param(self.labels)
            + spec_text_param("&locationId="@, self.location_id) + spec_bool_param(
            "&expired="@,
            self.expired,
        )
    }

    /// Render the filter as its list endpoint's query string.
    pub fn to_query_bytes(&self) -> (r: Vec<u8>)
        ensures
            r@ == self.spec_query(),
    {
        proof {
            reveal_strlit("page=");
            reveal_strlit("&perPage=");
            reveal_strlit("&name=");
            reveal_strlit("&locationId=");
            reveal_strlit("&expired=");
            assert("page=".is_ascii());
            assert("&perPage=".is_ascii());
            assert("&name=".is_ascii());
            assert("&locationId=".is_ascii());
            assert("&expired=".is_ascii());
        }
        let mut out: Vec<u8> = Vec::new();
        urlquery::append_ascii(&mut out, "page=");
        urlquery::append_usize(&mut out, self.page);
        urlquery::append_ascii(&mut out, "&perPage=");
        urlquery::append_usize(&mut out, self.per_page);
        append_text_param(&mut out, "&name=", &self.name);
        append_labels_param(&mut out, &self.labels);
        append_text_param(&mut out, "&locationId=", &self.location_id);
        append_bool_param(&mut out, "&expired=", &self.expired);
        proof {
            assert(out@ =~= self.spec_query());
        }
        out
    }
}

impl PageFilter for PantryFilter {
    open spec fn spec_page(&self) -> usize {
        self.page
    }

    open spec fn spec_per_page(&self) -> usize {
        self.per_page
    }

    open spec fn spec_same_search(&self, other: &Self) -> bool {
        &&& self.per_page == other.per_page
        &&& opt_text_view(self.name) == opt_text_view(other.name)
        &&& opt_labels_view(self.labels) == opt_labels_view(other.labels)
        &&& opt_text_view(self.location_id) == opt_text_view(other.location_id)
        &&& self.expired == other.expired
    }

    open spec fn spec_with_page(&self, page: usize) -> Self {
        PantryFilter {
            page,
            per_page: self.per_page,
            name: self.name,
            labels: self.labels,
            location_id: self.location_id,
            expired: self.expired,
        }
    }

    proof fn lemma_search_equivalence(a: &Self, b: &Self, c: &Self, page: usize) {
    }

    fn page(&self) -> usize {
        self.page
    }

    fn per_page(&self) -> usize {
        self.per_page
    }

    fn same_search(&self, other: &Self) -> bool {
        let per_page_eq = self.per_page == other.per_page;
        let name_eq = eq_opt_string(&self.name, &other.name);
        let labels_eq = eq_opt_labels(&self.labels, &other.labels);
        let location_eq = eq_opt_string(&self.location_id, &other.location_id);
        let expired_eq = eq_opt_bool(&self.expired, &other.expired);
        per_page_eq && name_eq && labels_eq && location_eq && expired_eq
    }

    fn set_page(&mut self, page: usize) {
        self.page = page;
    }
}

} // verus!
