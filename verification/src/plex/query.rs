//! Query strings: parameters in order, their values percent-encoded in one place.
use vstd::prelude::*;

use crate::text::{
    decimal, decimal_i64, encoded, joined, law_encoded_text_stays_in_its_parameter,
    law_split_undoes_join, push_encoded, split_on,
};

verus! {

/// One parameter.
#[derive(Debug)]
pub struct Param {
    pub key: String,
    pub value: String,
}

impl View for Param {
    type V = (Seq<char>, Seq<char>);

    open spec fn view(&self) -> (Seq<char>, Seq<char>) {
        (self.key@, self.value@)
    }
}

/// The keys and values of parameters.
pub open spec fn param_views(params: Seq<Param>) -> Seq<(Seq<char>, Seq<char>)> {
    Seq::new(params.len(), |i: int| params[i]@)
}

/// A parameter with a number for its value.
pub open spec fn number(key: Seq<char>, value: int) -> (Seq<char>, Seq<char>) {
    (key, decimal(value))
}

/// One parameter as it stands in a query.
pub open spec fn param_text(param: (Seq<char>, Seq<char>)) -> Seq<char> {
    param.0 + "="@ + encoded(param.1)
}

/// Each parameter as it stands in a query.
pub open spec fn param_texts(params: Seq<(Seq<char>, Seq<char>)>) -> Seq<Seq<char>> {
    Seq::new(params.len(), |i: int| param_text(params[i]))
}

/// A query: its parameters with an ampersand between each two.
pub open spec fn rendered(params: Seq<(Seq<char>, Seq<char>)>) -> Seq<char> {
    joined(param_texts(params), '&')
}

/// A path with its query.
pub open spec fn path_with_query(
    path: Seq<char>,
    params: Seq<(Seq<char>, Seq<char>)>,
) -> Seq<char> {
    if params.len() == 0 {
        path
    } else {
        path + "?"@ + rendered(params)
    }
}

/// A path and its parameters, in the order in which they were added.
pub struct QueryBuilder {
    path: String,
    params: Vec<Param>,
}

impl QueryBuilder {
    pub closed spec fn path(&self) -> Seq<char> {
        self.path@
    }

    pub closed spec fn params(&self) -> Seq<(Seq<char>, Seq<char>)> {
        param_views(self.params@)
    }

    /// A path without parameters.
    pub fn new(path: &str) -> (r: QueryBuilder)
        ensures
            r.path() == path@,
            r.params() == Seq::<(Seq<char>, Seq<char>)>::empty(),
    {
        let r = QueryBuilder { path: String::from_str(path), params: Vec::new() };
        assert(r.params() =~= Seq::empty());
        r
    }

    /// Adds a parameter.
    pub fn with_str(self, key: &str, value: &str) -> (r: QueryBuilder)
        ensures
            r.path() == self.path(),
            r.params() == self.params().push((key@, value@)),
    {
        let mut q = self;
        q.params.push(Param { key: String::from_str(key), value: String::from_str(value) });
        assert(q.params() =~= self.params().push((key@, value@)));
        q
    }

    /// Adds a parameter with a number for its value.
    pub fn with_int(self, key: &str, value: i64) -> (r: QueryBuilder)
        ensures
            r.path() == self.path(),
            r.params() == self.params().push(number(key@, value as int)),
    {
        let text = decimal_i64(value);
        self.with_str(key, text.as_str())
    }

    /// Adds a parameter with a number for its value, where the number is positive.
    pub fn with_opt_int(self, key: &str, value: i64) -> (r: QueryBuilder)
        ensures
            r.path() == self.path(),
            r.params() == (if value > 0 {
                self.params().push(number(key@, value as int))
            } else {
                self.params()
            }),
    {
        if value > 0 {
            self.with_int(key, value)
        } else {
            self
        }
    }

    /// Adds copies of parameters.
    pub fn with_all(self, more: &Vec<Param>) -> (r: QueryBuilder)
        ensures
            r.path() == self.path(),
            r.params() == self.params() + param_views(more@),
    {
        let mut q = self;
        let mut i: usize = 0;
        assert(q.params() =~= self.params() + param_views(more@).take(0));
        while i < more.len()
            invariant
                i <= more@.len(),
                q.path() == self.path(),
                q.params() == self.params() + param_views(more@).take(i as int),
            decreases more@.len() - i,
        {
            q = q.with_str(more[i].key.as_str(), more[i].value.as_str());
            assert(q.params() =~= self.params() + param_views(more@).take(i + 1));
            i = i + 1;
        }
        assert(param_views(more@).take(i as int) =~= param_views(more@));
        q
    }

    /// The query alone.
    pub fn query(&self) -> (r: String)
        ensures
            r@ == rendered(self.params()),
    {
        let mut out = String::new();
        let mut i: usize = 0;
        let ghost all = param_texts(self.params());
        assert(out@ =~= joined(all.take(0), '&'));
        while i < self.params.len()
            invariant
                i <= self.params@.len(),
                all == param_texts(self.params()),
                out@ == joined(all.take(i as int), '&'),
            decreases self.params@.len() - i,
        {
            assert(all.take(i + 1).drop_last() =~= all.take(i as int));
            assert(all.take(i + 1).last() == param_text(self.params@[i as int]@));
            if i > 0 {
                out.push('&');
            }
            out.append(self.params[i].key.as_str());
            out.append("=");
            push_encoded(&mut out, self.params[i].value.as_str());
            assert(out@ =~= joined(all.take(i + 1), '&'));
            i = i + 1;
        }
        assert(all.take(i as int) =~= all);
        out
    }

    /// The path with its query.
    pub fn build(&self) -> (r: String)
        ensures
            r@ == path_with_query(self.path(), self.params()),
    {
        let mut out = self.path.clone();
        if self.params.len() > 0 {
            out.append("?");
            out.append(self.query().as_str());
        }
        out
    }
}

/// A query holds its parameters and nothing else: splitting it at the ampersands gives each of them
/// back, whatever their values hold.
pub proof fn law_query_holds_its_parameters(params: Seq<(Seq<char>, Seq<char>)>)
    requires
        params.len() > 0,
        forall|i: int| 0 <= i < params.len() ==> !(#[trigger] params[i]).0.contains('&'),
    ensures
        split_on(rendered(params), '&') == param_texts(params),
{
    reveal_strlit("=");
    let parts = param_texts(params);
    assert forall|i: int| 0 <= i < parts.len() implies !(#[trigger] parts[i]).contains('&') by {
        let param = params[i];
        law_encoded_text_stays_in_its_parameter(param.1);
        let head = param.0 + "="@;
        if parts[i].contains('&') {
            let j = choose|j: int| 0 <= j < parts[i].len() && parts[i][j] == '&';
            if j < param.0.len() {
                assert(param.0[j] == '&');
            } else if j >= head.len() {
                assert(encoded(param.1)[j - head.len()] == '&');
            }
        }
    }
    law_split_undoes_join(parts, '&');
}

} // verus!
