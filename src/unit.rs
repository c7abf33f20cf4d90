use vstd::prelude::*;
use vstd::string::*;
use crate::document::{
    copy_all, deep_all, empty_route, DeepCopy, DocumentedCookie, DocumentedHeader,
    DocumentedParameter, DocumentedQuery, DocumentedResponse, DocumentedType, HostType, Method,
    RouteDocumentation, RouteModel,
};

verus! {

broadcast use vstd::std_specs::vec::group_vec_axioms;

/// Documentation an author attaches by hand to a unit.
#[derive(Debug)]
pub struct Annotation {
    pub cookies: Vec<DocumentedCookie>,
    pub headers: Vec<DocumentedHeader>,
    pub queries: Vec<DocumentedQuery>,
    pub responses: Vec<(u16, DocumentedResponse)>,
}

/// A unit whose documentation is given by hand instead of inferred.
#[derive(Debug)]
pub struct ExplicitDocumentation {
    pub item: Box<Unit>,
    pub annotation: Annotation,
}

/// A composable routing unit, seen from the side of what it documents.
#[derive(Debug)]
pub enum Unit {
    /// Matches everything and documents nothing.
    Any,
    Method(Method),
    /// A literal path segment.
    Literal(String),
    /// A positional path parameter.
    Param(DocumentedParameter),
    Header(DocumentedHeader),
    Query(DocumentedQuery),
    Cookie(DocumentedCookie),
    /// The first unit, then the second.
    And(Box<Unit>, Box<Unit>),
    /// The first unit, or else the second.
    Or(Box<Unit>, Box<Unit>),
    Explicit(ExplicitDocumentation),
}

pub open spec fn digit(d: nat) -> char {
    if d == 0 { '0' } else if d == 1 { '1' } else if d == 2 { '2' } else if d == 3 { '3' }
    else if d == 4 { '4' } else if d == 5 { '5' } else if d == 6 { '6' } else if d == 7 { '7' }
    else if d == 8 { '8' } else { '9' }
}

/// The decimal digits of `n`, without leading zeros.
pub open spec fn decimal(n: nat) -> Seq<char>
    decreases n,
{
    if n < 10 {
        seq![digit(n)]
    } else {
        decimal(n / 10) + seq![digit(n % 10)]
    }
}

/// The placeholder `{n}` that stands for the `n`-th positional parameter.
pub open spec fn placeholder(n: nat) -> Seq<char> {
    seq!['{'] + decimal(n) + seq!['}']
}

fn digit_text(d: usize) -> (r: &'static str)
    requires
        d < 10,
    ensures
        r@ == seq![digit(d as nat)],
{
    if d == 0 {
        proof { reveal_strlit("0"); }
        "0"
    } else if d == 1 {
        proof { reveal_strlit("1"); }
        "1"
    } else if d == 2 {
        proof { reveal_strlit("2"); }
        "2"
    } else if d == 3 {
        proof { reveal_strlit("3"); }
        "3"
    } else if d == 4 {
        proof { reveal_strlit("4"); }
        "4"
    } else if d == 5 {
        proof { reveal_strlit("5"); }
        "5"
    } else if d == 6 {
        proof { reveal_strlit("6"); }
        "6"
    } else if d == 7 {
        proof { reveal_strlit("7"); }
        "7"
    } else if d == 8 {
        proof { reveal_strlit("8"); }
        "8"
    } else {
        proof { reveal_strlit("9"); }
        "9"
    }
}

/// Appends the decimal digits of `n`.
pub fn push_decimal(s: &mut String, n: usize)
    ensures
        final(s)@ == old(s)@ + decimal(n as nat),
    decreases n,
{
    if n < 10 {
        s.append(digit_text(n));
    } else {
        push_decimal(s, n / 10);
        s.append(digit_text(n % 10));
        assert(final(s)@ =~= old(s)@ + decimal(n as nat));
    }
}

impl Annotation {
    /// What the annotation adds to a record: its entries after those already there.
    pub open spec fn apply_spec(&self, r: RouteModel) -> RouteModel {
        RouteModel {
            cookies: r.cookies + deep_all(self.cookies@),
            headers: r.headers + deep_all(self.headers@),
            queries: r.queries + deep_all(self.queries@),
            responses: r.responses + deep_all(self.responses@),
            ..r
        }
    }

    pub fn apply(&self, route: &mut RouteDocumentation)
        ensures
            final(route).deep() == self.apply_spec(old(route).deep()),
    {
        append_copies(&mut route.cookies, &self.cookies);
        append_copies(&mut route.headers, &self.headers);
        append_copies(&mut route.queries, &self.queries);
        append_copies(&mut route.responses, &self.responses);
    }
}

/// Appends deep copies of the elements of `src`.
pub fn append_copies<T: DeepCopy>(dst: &mut Vec<T>, src: &Vec<T>)
    ensures
        deep_all(final(dst)@) == deep_all(old(dst)@) + deep_all(src@),
{
    let mut more = copy_all(src);
    let ghost copied = more@;
    dst.append(&mut more);
    proof {
        lemma_deep_concat(old(dst)@, copied);
    }
}

pub proof fn lemma_deep_concat<T: DeepCopy>(a: Seq<T>, b: Seq<T>)
    ensures
        deep_all(a + b) == deep_all(a) + deep_all(b),
{
    assert(deep_all(a + b) =~= deep_all(a) + deep_all(b));
}

impl ExplicitDocumentation {
    pub fn new(item: Unit, annotation: Annotation) -> (r: Self)
        ensures
            *r.item == item,
            r.annotation == annotation,
    {
        ExplicitDocumentation { item: Box::new(item), annotation }
    }

    pub open spec fn describe_spec(&self, r: RouteModel) -> Seq<RouteModel> {
        seq![self.annotation.apply_spec(r)]
    }

    /// The annotation applied to `route`, whatever the wrapped unit would document.
    pub fn describe(&self, route: RouteDocumentation) -> (r: Vec<RouteDocumentation>)
        ensures
            deep_all(r@) == self.describe_spec(route.deep()),
    {
        let ghost m = route.deep();
        let mut route = route;
        self.annotation.apply(&mut route);
        let mut out: Vec<RouteDocumentation> = Vec::new();
        out.push(route);
        assert(deep_all(out@) =~= self.describe_spec(m));
        out
    }
}

/// What `b` documents for each record of `rs` in turn, concatenated.
pub open spec fn describe_each(b: Unit, rs: Seq<RouteModel>) -> Seq<RouteModel>
    decreases b, rs.len() + 1,
{
    if rs.len() == 0 {
        Seq::empty()
    } else {
        describe_each(b, rs.drop_last()) + b.describe_spec(rs.last())
    }
}

/// `r` after a literal segment `seg` is matched.
pub open spec fn with_segment(r: RouteModel, seg: Seq<char>) -> RouteModel {
    RouteModel { path: r.path + seq!['/'] + seg, ..r }
}

/// `r` after a positional parameter `p` is extracted.
pub open spec fn with_parameter(r: RouteModel, p: DocumentedParameter) -> RouteModel {
    RouteModel {
        path: r.path + seq!['/'] + placeholder(r.parameters.len()),
        parameters: r.parameters.push(p.deep()),
        ..r
    }
}

/// The root path `/` in place of an empty one.
pub open spec fn normalize(r: RouteModel) -> RouteModel {
    if r.path.len() == 0 {
        RouteModel { path: seq!['/'], ..r }
    } else {
        r
    }
}

impl Unit {
    /// The records this unit documents, given what was documented before it.
    pub open spec fn describe_spec(self, r: RouteModel) -> Seq<RouteModel>
        decreases self, 0nat,
    {
        match self {
            Unit::Any => seq![r],
            Unit::Method(m) => seq![RouteModel { method: Some(m), ..r }],
            Unit::Literal(seg) => seq![with_segment(r, seg@)],
            Unit::Param(p) => seq![with_parameter(r, p)],
            Unit::Header(h) => seq![RouteModel { headers: r.headers.push(h), ..r }],
            Unit::Query(q) => seq![RouteModel { queries: r.queries.push(q.deep()), ..r }],
            Unit::Cookie(c) => seq![RouteModel { cookies: r.cookies.push(c), ..r }],
            Unit::And(a, b) => describe_each(*b, (*a).describe_spec(r)),
            Unit::Or(a, b) => (*a).describe_spec(r) + (*b).describe_spec(r),
            Unit::Explicit(e) => e.describe_spec(r),
        }
    }

    /// A positional parameter named `name`, documented with the default
    /// shape of the host kind it is parsed as.
    pub fn param(name: String, kind: HostType) -> (r: Unit)
        ensures
            r matches Unit::Param(p) && p.name == name && p.description.is_none()
                && p.parameter_type.model() == crate::document::host_type_model(kind),
    {
        Unit::Param(DocumentedParameter {
            name,
            description: None,
            parameter_type: DocumentedType::of_host(kind),
        })
    }

    pub fn and(a: Unit, b: Unit) -> (r: Unit)
        ensures
            r == Unit::And(Box::new(a), Box::new(b)),
    {
        Unit::And(Box::new(a), Box::new(b))
    }

    pub fn or(a: Unit, b: Unit) -> (r: Unit)
        ensures
            r == Unit::Or(Box::new(a), Box::new(b)),
    {
        Unit::Or(Box::new(a), Box::new(b))
    }

    /// Documents this unit, continuing `route`.
    pub fn describe(&self, route: RouteDocumentation) -> (r: Vec<RouteDocumentation>)
        ensures
            deep_all(r@) == self.describe_spec(route.deep()),
        decreases self,
    {
        let ghost m = route.deep();
        let mut route = route;
        match self {
            Unit::Any => {
                let mut out: Vec<RouteDocumentation> = Vec::new();
                out.push(route);
                assert(deep_all(out@) =~= self.describe_spec(m));
                out
            },
            Unit::Method(meth) => {
                route.method = Some(*meth);
                let mut out: Vec<RouteDocumentation> = Vec::new();
                out.push(route);
                assert(deep_all(out@) =~= self.describe_spec(m));
                out
            },
            Unit::Literal(seg) => {
                proof { reveal_strlit("/"); }
                route.path.append("/");
                route.path.append(seg.as_str());
                assert(route.path@ =~= m.path + seq!['/'] + seg@);
                let mut out: Vec<RouteDocumentation> = Vec::new();
                out.push(route);
                assert(deep_all(out@) =~= self.describe_spec(m));
                out
            },
            Unit::Param(p) => {
                proof { reveal_strlit("/{"); reveal_strlit("}"); }
                route.path.append("/{");
                push_decimal(&mut route.path, route.parameters.len());
                route.path.append("}");
                let ghost pm = p.deep();
                route.parameters.push(p.deep_copy());
                assert(deep_all(route.parameters@) =~= m.parameters.push(pm));
                assert(route.path@ =~= m.path + seq!['/'] + placeholder(m.parameters.len()));
                let mut out: Vec<RouteDocumentation> = Vec::new();
                out.push(route);
                assert(deep_all(out@) =~= self.describe_spec(m));
                out
            },
            Unit::Header(h) => {
                route.header(h.deep_copy());
                let mut out: Vec<RouteDocumentation> = Vec::new();
                out.push(route);
                assert(deep_all(out@) =~= self.describe_spec(m));
                out
            },
            Unit::Query(q) => {
                route.query(q.deep_copy());
                let mut out: Vec<RouteDocumentation> = Vec::new();
                out.push(route);
                assert(deep_all(out@) =~= self.describe_spec(m));
                out
            },
            Unit::Cookie(c) => {
                route.cookie(c.deep_copy());
                let mut out: Vec<RouteDocumentation> = Vec::new();
                out.push(route);
                assert(deep_all(out@) =~= self.describe_spec(m));
                out
            },
            Unit::And(a, b) => {
                let first = a.describe(route);
                let ghost fm = deep_all(first@);
                let mut out: Vec<RouteDocumentation> = Vec::new();
                let mut i: usize = 0;
                while i < first.len()
                    invariant
                        i <= first.len(),
                        fm == deep_all(first@),
                        deep_all(out@) == describe_each(**b, fm.take(i as int)),
                        *self is And,
                        self->And_1 == *b,
                    decreases first.len() - i,
                {
                    proof {
                        assert(decreases_to!(*self => self->And_1));
                    }
                    let x = first[i].deep_copy();
                    let mut more = b.describe(x);
                    let ghost before = out@;
                    let ghost added = more@;
                    out.append(&mut more);
                    proof {
                        lemma_deep_concat(before, added);
                        assert(fm.take(i + 1).drop_last() =~= fm.take(i as int));
                    }
                    i = i + 1;
                }
                assert(fm.take(i as int) =~= fm);
                out
            },
            Unit::Or(a, b) => {
                let copy = route.deep_copy();
                let mut left = a.describe(route);
                let mut right = b.describe(copy);
                let ghost l = left@;
                let ghost rt = right@;
                left.append(&mut right);
                proof {
                    lemma_deep_concat(l, rt);
                }
                left
            },
            Unit::Explicit(e) => e.describe(route),
        }
    }
}

/// Documents a whole composition, starting from an empty record. A route
/// that contributed no path segment is documented under the root path `/`.
pub fn describe(root: &Unit) -> (r: Vec<RouteDocumentation>)
    ensures
        deep_all(r@) == root.describe_spec(empty_route()).map_values(|m: RouteModel| normalize(m)),
{
    let routes = root.describe(RouteDocumentation::empty());
    let ghost raw = deep_all(routes@);
    let mut out: Vec<RouteDocumentation> = Vec::new();
    let mut i: usize = 0;
    while i < routes.len()
        invariant
            i <= routes.len(),
            raw == deep_all(routes@),
            out.len() == i,
            forall|j: int| 0 <= j < i ==> (#[trigger] out@[j]).deep() == normalize(raw[j]),
        decreases routes.len() - i,
    {
        let mut route = routes[i].deep_copy();
        if route.path.as_str().unicode_len() == 0 {
            proof { reveal_strlit("/"); }
            route.path.append("/");
            assert(route.path@ =~= seq!['/']);
        }
        out.push(route);
        i = i + 1;
    }
    assert(deep_all(out@) =~= raw.map_values(|m: RouteModel| normalize(m)));
    out
}

/// How many records `b` documents over all of `rs`, each taken on its own.
pub open spec fn count_each(b: Unit, rs: Seq<RouteModel>) -> nat
    decreases rs.len(),
{
    if rs.len() == 0 {
        0
    } else {
        count_each(b, rs.drop_last()) + b.describe_spec(rs.last()).len()
    }
}

proof fn lemma_each_count(b: Unit, rs: Seq<RouteModel>)
    ensures
        describe_each(b, rs).len() == count_each(b, rs),
    decreases rs.len(),
{
    if rs.len() > 0 {
        lemma_each_count(b, rs.drop_last());
    }
}

proof fn lemma_each_uniform(b: Unit, rs: Seq<RouteModel>, k: nat)
    requires
        forall|i: int| 0 <= i < rs.len() ==> (#[trigger] b.describe_spec(rs[i])).len() == k,
    ensures
        count_each(b, rs) == rs.len() * k,
    decreases rs.len(),
{
    if rs.len() > 0 {
        let init = rs.drop_last();
        assert forall|i: int| 0 <= i < init.len() implies (#[trigger] b.describe_spec(init[i])).len() == k by {
            assert(init[i] == rs[i]);
        }
        lemma_each_uniform(b, init, k);
        assert(b.describe_spec(rs[rs.len() - 1]).len() == k);
        assert((init.len() + 1) * k == init.len() * k + k) by (nonlinear_arith);
    }
}

/// Sequencing composes multiplicatively: `a` then `b` documents as many
/// records as `b` documents over each record of `a`, taken one at a time;
/// where `b` documents `k` records for each of them, that is `|a| * k`.
pub proof fn lemma_sequence_count(a: Unit, b: Unit, r: RouteModel, k: nat)
    ensures
        Unit::And(Box::new(a), Box::new(b)).describe_spec(r).len() == count_each(b, a.describe_spec(r)),
        (forall|i: int| 0 <= i < a.describe_spec(r).len()
            ==> (#[trigger] b.describe_spec(a.describe_spec(r)[i])).len() == k)
            ==> Unit::And(Box::new(a), Box::new(b)).describe_spec(r).len() == a.describe_spec(r).len() * k,
{
    lemma_each_count(b, a.describe_spec(r));
    if forall|i: int| 0 <= i < a.describe_spec(r).len()
        ==> (#[trigger] b.describe_spec(a.describe_spec(r)[i])).len() == k {
        lemma_each_uniform(b, a.describe_spec(r), k);
    }
}

/// Alternation composes additively: `a` or `b` documents the records of `a`
/// followed by those of `b`, each branch starting from the same record.
pub proof fn lemma_alternation(a: Unit, b: Unit, r: RouteModel)
    ensures
        Unit::Or(Box::new(a), Box::new(b)).describe_spec(r) == a.describe_spec(r) + b.describe_spec(r),
        Unit::Or(Box::new(a), Box::new(b)).describe_spec(r).len()
            == a.describe_spec(r).len() + b.describe_spec(r).len(),
{
}

/// Every route that `describe` returns has a path, and one that
/// contributed no segment is documented under `/`.
pub proof fn lemma_root_path(root: Unit)
    ensures
        forall|i: int| 0 <= i < root.describe_spec(empty_route()).len() ==> {
            let raw = #[trigger] root.describe_spec(empty_route())[i];
            &&& normalize(raw).path.len() > 0
            &&& raw.path.len() == 0 ==> normalize(raw).path == seq!['/']
            &&& raw.path.len() > 0 ==> normalize(raw) == raw
        },
{
}

/// What the units read of an incoming request: its method, its path split
/// into segments, and its headers, query fields and cookies as name/value pairs.
#[derive(Debug)]
pub struct Request {
    pub method: Method,
    pub segments: Vec<String>,
    pub headers: Vec<(String, String)>,
    pub queries: Vec<(String, String)>,
    pub cookies: Vec<(String, String)>,
}

/// The value of the first pair named `name`.
pub open spec fn lookup(pairs: Seq<(String, String)>, name: Seq<char>) -> Option<String>
    decreases pairs.len(),
{
    if pairs.len() == 0 {
        None
    } else if pairs[0].0@ == name {
        Some(pairs[0].1)
    } else {
        lookup(pairs.drop_first(), name)
    }
}

/// What a named lookup extracts: the value where present; nothing where it is
/// absent and optional; a rejection where it is absent and required.
pub open spec fn extract_named(found: Option<String>, required: bool, pos: nat) -> Option<(nat, Seq<String>)> {
    match found {
        Some(v) => Some((pos, seq![v])),
        None => if required { None } else { Some((pos, Seq::empty())) },
    }
}

impl Unit {
    /// The outcome of matching this unit against `req` from segment `pos` on:
    /// the position after it and the values it extracts, or a rejection.
    pub open spec fn matches(self, req: Request, pos: nat) -> Option<(nat, Seq<String>)>
        decreases self,
    {
        match self {
            Unit::Any => Some((pos, Seq::empty())),
            Unit::Method(m) => if req.method == m { Some((pos, Seq::empty())) } else { None },
            Unit::Literal(seg) => if pos < req.segments@.len() && req.segments@[pos as int]@ == seg@ {
                Some((pos + 1, Seq::empty()))
            } else {
                None
            },
            Unit::Param(_) => if pos < req.segments@.len() {
                Some((pos + 1, seq![req.segments@[pos as int]]))
            } else {
                None
            },
            Unit::Header(h) => extract_named(lookup(req.headers@, h.name@), h.required, pos),
            Unit::Query(q) => extract_named(lookup(req.queries@, q.name@), q.required, pos),
            Unit::Cookie(c) => extract_named(lookup(req.cookies@, c.name@), c.required, pos),
            Unit::And(a, b) => match (*a).matches(req, pos) {
                Some((p1, xs)) => match (*b).matches(req, p1) {
                    Some((p2, ys)) => Some((p2, xs + ys)),
                    None => None,
                },
                None => None,
            },
            Unit::Or(a, b) => match (*a).matches(req, pos) {
                Some(r) => Some(r),
                None => (*b).matches(req, pos),
            },
            Unit::Explicit(e) => (*e.item).matches(req, pos),
        }
    }

    /// Matches this unit against `req` from segment `pos` on.
    pub fn filter(&self, req: &Request, pos: usize) -> (r: Option<(usize, Vec<String>)>)
        requires
            pos <= req.segments@.len(),
        ensures
            match r {
                Some((p, xs)) => self.matches(*req, pos as nat) == Some((p as nat, xs@)),
                None => self.matches(*req, pos as nat) is None,
            },
        decreases self,
    {
        match self {
            Unit::Any => Some((pos, Vec::new())),
            Unit::Method(m) => if req.method == *m { Some((pos, Vec::new())) } else { None },
            Unit::Literal(seg) => {
                if pos < req.segments.len() && req.segments[pos] == *seg {
                    Some((pos + 1, Vec::new()))
                } else {
                    None
                }
            },
            Unit::Param(_) => {
                if pos < req.segments.len() {
                    let mut xs: Vec<String> = Vec::new();
                    xs.push(req.segments[pos].clone());
                    assert(xs@ =~= seq![req.segments@[pos as int]]);
                    Some((pos + 1, xs))
                } else {
                    None
                }
            },
            Unit::Header(h) => extract_exec(find(&req.headers, &h.name), h.required, pos),
            Unit::Query(q) => extract_exec(find(&req.queries, &q.name), q.required, pos),
            Unit::Cookie(c) => extract_exec(find(&req.cookies, &c.name), c.required, pos),
            Unit::And(a, b) => {
                match a.filter(req, pos) {
                    Some((p1, xs)) => {
                        proof { lemma_matches_position(**a, *req, pos as nat); }
                        match b.filter(req, p1) {
                            Some((p2, ys)) => {
                                let mut xs = xs;
                                let mut ys = ys;
                                xs.append(&mut ys);
                                Some((p2, xs))
                            },
                            None => None,
                        }
                    },
                    None => None,
                }
            },
            Unit::Or(a, b) => {
                match a.filter(req, pos) {
                    Some(r) => Some(r),
                    None => b.filter(req, pos),
                }
            },
            Unit::Explicit(e) => e.filter(req, pos),
        }
    }
}

/// A match never moves past the last segment.
pub proof fn lemma_matches_position(u: Unit, req: Request, pos: nat)
    requires
        pos <= req.segments@.len(),
    ensures
        u.matches(req, pos) matches Some((p, _)) ==> pos <= p <= req.segments@.len(),
    decreases u,
{
    match u {
        Unit::And(a, b) => {
            lemma_matches_position(*a, req, pos);
            if let Some((p1, _)) = (*a).matches(req, pos) {
                lemma_matches_position(*b, req, p1);
            }
        },
        Unit::Or(a, b) => {
            lemma_matches_position(*a, req, pos);
            lemma_matches_position(*b, req, pos);
        },
        Unit::Explicit(e) => {
            lemma_matches_position(*e.item, req, pos);
        },
        _ => {},
    }
}

fn find(pairs: &Vec<(String, String)>, name: &String) -> (r: Option<String>)
    ensures
        r == lookup(pairs@, name@),
{
    let mut i: usize = 0;
    assert(pairs@.skip(0) =~= pairs@);
    while i < pairs.len()
        invariant
            i <= pairs.len(),
            lookup(pairs@, name@) == lookup(pairs@.skip(i as int), name@),
        decreases pairs.len() - i,
    {
        assert(pairs@.skip(i as int).drop_first() =~= pairs@.skip(i + 1));
        if pairs[i].0 == *name {
            return Some(pairs[i].1.clone());
        }
        i = i + 1;
    }
    None
}

fn extract_exec(found: Option<String>, required: bool, pos: usize) -> (r: Option<(usize, Vec<String>)>)
    ensures
        match r {
            Some((p, xs)) => extract_named(found, required, pos as nat) == Some((p as nat, xs@)),
            None => extract_named(found, required, pos as nat) is None,
        },
{
    match found {
        Some(v) => {
            let ghost w = v;
            let mut xs: Vec<String> = Vec::new();
            xs.push(v);
            assert(xs@ =~= seq![w]);
            Some((pos, xs))
        },
        None => {
            if required {
                None
            } else {
                let xs: Vec<String> = Vec::new();
                assert(xs@ =~= Seq::<String>::empty());
                Some((pos, xs))
            }
        },
    }
}

impl ExplicitDocumentation {
    /// Matching is left to the wrapped unit.
    pub fn filter(&self, req: &Request, pos: usize) -> (r: Option<(usize, Vec<String>)>)
        requires
            pos <= req.segments@.len(),
        ensures
            match r {
                Some((p, xs)) => (*self.item).matches(*req, pos as nat) == Some((p as nat, xs@)),
                None => (*self.item).matches(*req, pos as nat) is None,
            },
        decreases self,
    {
        proof {
            assert(decreases_to!(*self => self.item));
        }
        self.item.filter(req, pos)
    }
}

/// Wrapping a unit in an annotation never changes what it matches or
/// extracts, on any request; only what it documents.
pub proof fn lemma_explicit_keeps_matching(e: ExplicitDocumentation, req: Request, pos: nat, r: RouteModel)
    ensures
        Unit::Explicit(e).matches(req, pos) == (*e.item).matches(req, pos),
        Unit::Explicit(e).describe_spec(r) == seq![e.annotation.apply_spec(r)],
{
}

} // verus!
