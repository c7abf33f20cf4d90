use vstd::prelude::*;
use vstd::string::*;
use crate::unit::{decimal, placeholder, push_decimal};
use crate::document::{
    deep_all, fields_model, lemma_fields_model, BodyModel, DeepCopy, DocumentedCookie,
    DocumentedHeader, DocumentedResponse, DocumentedType, InternalDocumentedType, Method, ParamModel,
    QueryModel, ResponseModel, RouteDocumentation, RouteModel, TypeModel,
};

verus! {

broadcast use vstd::std_specs::vec::group_vec_axioms;

/// The kind of a schema node in the API description.
#[derive(Debug)]
pub enum SchemaType {
    Boolean,
    Number,
    Integer,
    String,
    Array(Box<Schema>),
    Object(Vec<(String, Schema)>),
}

/// A schema node in the API description.
#[derive(Debug)]
pub struct Schema {
    pub description: Option<String>,
    pub nullable: bool,
    pub kind: SchemaType,
}

pub enum SchemaTypeModel {
    Boolean,
    Number,
    Integer,
    String,
    Array(Box<SchemaModel>),
    Object(Seq<(String, SchemaModel)>),
}

pub struct SchemaModel {
    pub description: Option<String>,
    pub nullable: bool,
    pub kind: SchemaTypeModel,
}

pub open spec fn properties_model(ps: Seq<(String, Schema)>) -> Seq<(String, SchemaModel)>
    decreases ps,
{
    if ps.len() == 0 {
        Seq::empty()
    } else {
        seq![(ps[0].0, ps[0].1.model())] + properties_model(ps.drop_first())
    }
}

proof fn lemma_properties_model(ps: Seq<(String, Schema)>)
    ensures
        properties_model(ps).len() == ps.len(),
        forall|j: int| 0 <= j < ps.len() ==> #[trigger] properties_model(ps)[j] == (ps[j].0, ps[j].1.model()),
    decreases ps.len(),
{
    if ps.len() > 0 {
        lemma_properties_model(ps.drop_first());
        assert forall|j: int| 0 <= j < ps.len() implies #[trigger] properties_model(ps)[j] == (ps[j].0, ps[j].1.model()) by {
            if j > 0 {
                assert(ps.drop_first()[j - 1] == ps[j]);
            }
        }
    }
}

impl Schema {
    pub open spec fn model(&self) -> SchemaModel
        decreases self,
    {
        SchemaModel {
            description: self.description,
            nullable: self.nullable,
            kind: match self.kind {
                SchemaType::Boolean => SchemaTypeModel::Boolean,
                SchemaType::Number => SchemaTypeModel::Number,
                SchemaType::Integer => SchemaTypeModel::Integer,
                SchemaType::String => SchemaTypeModel::String,
                SchemaType::Array(items) => SchemaTypeModel::Array(Box::new((*items).model())),
                SchemaType::Object(ps) => SchemaTypeModel::Object(properties_model(ps@)),
            },
        }
    }
}

pub open spec fn scalar_model(ty: InternalDocumentedType) -> SchemaTypeModel {
    match ty {
        InternalDocumentedType::Boolean => SchemaTypeModel::Boolean,
        InternalDocumentedType::Float => SchemaTypeModel::Number,
        InternalDocumentedType::Integer => SchemaTypeModel::Integer,
        InternalDocumentedType::String => SchemaTypeModel::String,
    }
}

/// A documented type rendered as a schema: arrays and objects keep their
/// shape, primitives become scalars that are nullable where not required.
pub open spec fn render_spec(t: TypeModel) -> SchemaModel
    decreases t,
{
    match t {
        TypeModel::Array(inner) => SchemaModel {
            description: None,
            nullable: false,
            kind: SchemaTypeModel::Array(Box::new(render_spec(*inner))),
        },
        TypeModel::Object(fs) => SchemaModel {
            description: None,
            nullable: false,
            kind: SchemaTypeModel::Object(render_fields(fs)),
        },
        TypeModel::Primitive { ty, documentation, required } => SchemaModel {
            description: documentation,
            nullable: !required,
            kind: scalar_model(ty),
        },
    }
}

pub open spec fn render_fields(fs: Seq<(String, TypeModel)>) -> Seq<(String, SchemaModel)>
    decreases fs,
{
    if fs.len() == 0 {
        Seq::empty()
    } else {
        seq![(fs[0].0, render_spec(fs[0].1))] + render_fields(fs.drop_first())
    }
}

proof fn lemma_render_fields(fs: Seq<(String, TypeModel)>)
    ensures
        render_fields(fs).len() == fs.len(),
        forall|j: int| 0 <= j < fs.len() ==> #[trigger] render_fields(fs)[j] == (fs[j].0, render_spec(fs[j].1)),
    decreases fs.len(),
{
    if fs.len() > 0 {
        lemma_render_fields(fs.drop_first());
        assert forall|j: int| 0 <= j < fs.len() implies #[trigger] render_fields(fs)[j] == (fs[j].0, render_spec(fs[j].1)) by {
            if j > 0 {
                assert(fs.drop_first()[j - 1] == fs[j]);
            }
        }
    }
}

/// The plain string schema used for headers, queries and cookies.
pub open spec fn string_schema() -> SchemaModel {
    SchemaModel { description: None, nullable: false, kind: SchemaTypeModel::String }
}

fn string_schema_exec() -> (r: Schema)
    ensures
        r.model() == string_schema(),
{
    Schema { description: None, nullable: false, kind: SchemaType::String }
}

/// Renders a documented type as a schema.
pub fn render(t: &DocumentedType) -> (r: Schema)
    ensures
        r.model() == render_spec(t.model()),
    decreases t,
{
    match t {
        DocumentedType::Array(inner) => {
            let items = render(&**inner);
            Schema { description: None, nullable: false, kind: SchemaType::Array(Box::new(items)) }
        },
        DocumentedType::Object(fields) => {
            let mut out: Vec<(String, Schema)> = Vec::new();
            let mut i: usize = 0;
            while i < fields.len()
                invariant
                    i <= fields.len(),
                    out.len() == i,
                    *t == DocumentedType::Object(*fields),
                    forall|j: int| 0 <= j < i ==> (#[trigger] out[j]).0 == fields[j].0
                        && out[j].1.model() == render_spec(fields[j].1.model()),
                decreases fields.len() - i,
            {
                proof {
                    assert(decreases_to!(*fields => fields[i as int]));
                    assert(decreases_to!(fields[i as int] => fields[i as int].1));
                    assert(decreases_to!(*t => t->Object_0));
                }
                let name = fields[i].0.clone();
                let s = render(&fields[i].1);
                out.push((name, s));
                i = i + 1;
            }
            let r = Schema { description: None, nullable: false, kind: SchemaType::Object(out) };
            proof {
                lemma_properties_model(out@);
                lemma_fields_model(fields@);
                lemma_render_fields(fields_model(fields@));
                assert(properties_model(out@) =~= render_fields(fields_model(fields@)));
            }
            r
        },
        DocumentedType::Primitive { ty, documentation, required } => {
            let kind = match ty {
                InternalDocumentedType::Boolean => SchemaType::Boolean,
                InternalDocumentedType::Float => SchemaType::Number,
                InternalDocumentedType::Integer => SchemaType::Integer,
                InternalDocumentedType::String => SchemaType::String,
            };
            Schema { description: crate::document::copy_text(documentation), nullable: !*required, kind }
        },
    }
}

/// The smallest index from `i` on whose placeholder begins `p`.
pub open spec fn first_match(p: Seq<char>, names: Seq<Seq<char>>, i: nat) -> Option<nat>
    decreases names.len() - i,
{
    if i >= names.len() {
        None
    } else if placeholder(i).is_prefix_of(p) {
        Some(i)
    } else {
        first_match(p, names, i + 1)
    }
}

/// `p` with each placeholder `{i}` of a parameter replaced by `{names[i]}`,
/// read from left to right; nothing else changes.
pub open spec fn rename(p: Seq<char>, names: Seq<Seq<char>>) -> Seq<char>
    decreases p.len(),
{
    if p.len() == 0 {
        Seq::empty()
    } else {
        match first_match(p, names, 0) {
            Some(k) => if placeholder(k).len() <= p.len() && placeholder(k).len() > 0 {
                seq!['{'] + names[k as int] + seq!['}'] + rename(p.skip(placeholder(k).len() as int), names)
            } else {
                Seq::empty()
            },
            None => seq![p[0]] + rename(p.drop_first(), names),
        }
    }
}

proof fn lemma_first_match_some(p: Seq<char>, names: Seq<Seq<char>>, i: nat)
    ensures
        first_match(p, names, i) matches Some(k) ==> k < names.len() && placeholder(k).is_prefix_of(p),
    decreases names.len() - i,
{
    if i < names.len() && !placeholder(i).is_prefix_of(p) {
        lemma_first_match_some(p, names, i + 1);
    }
}

/// Whether `token` occurs in `s` at character position `pos`.
fn occurs_at(s: &str, len: usize, pos: usize, token: &str) -> (r: bool)
    requires
        len == s@.len(),
        pos <= len,
    ensures
        r == token@.is_prefix_of(s@.skip(pos as int)),
{
    let n = token.unicode_len();
    if n > len - pos {
        return false;
    }
    let mut j: usize = 0;
    while j < n
        invariant
            n == token@.len(),
            n <= len - pos,
            len == s@.len(),
            pos <= len,
            j <= n,
            forall|k: int| 0 <= k < j ==> token@[k] == s@[pos + k],
        decreases n - j,
    {
        if token.get_char(j) != s.get_char(pos + j) {
            assert(token@[j as int] != s@.skip(pos as int)[j as int]);
            return false;
        }
        j = j + 1;
    }
    assert(token@ =~= s@.skip(pos as int).subrange(0, n as int));
    true
}

fn placeholder_text(i: usize) -> (r: String)
    ensures
        r@ == placeholder(i as nat),
{
    let mut t = String::new();
    proof { reveal_strlit("{"); reveal_strlit("}"); }
    t.append("{");
    push_decimal(&mut t, i);
    t.append("}");
    assert(t@ =~= placeholder(i as nat));
    t
}

/// Replaces each placeholder `{i}` of `path` with `{names[i]}`.
pub fn rename_placeholders(path: &str, names: &Vec<String>) -> (r: String)
    ensures
        r@ == rename(path@, names@.map_values(|n: String| n@)),
{
    let ghost ns = names@.map_values(|n: String| n@);
    let ghost p = path@;
    let len = path.unicode_len();
    let mut out = String::new();
    let mut pos: usize = 0;
    assert(p.skip(0) =~= p);
    assert(out@ + rename(p, ns) =~= rename(p, ns));
    while pos < len
        invariant
            len == p.len(),
            p == path@,
            ns == names@.map_values(|n: String| n@),
            pos <= len,
            rename(p, ns) == out@ + rename(p.skip(pos as int), ns),
        decreases len - pos,
    {
        let ghost q = p.skip(pos as int);
        let mut i: usize = 0;
        let mut found = false;
        let mut width: usize = 0;
        while i < names.len() && !found
            invariant
                i <= names.len(),
                ns == names@.map_values(|n: String| n@),
                q == path@.skip(pos as int),
                pos <= len,
                len == path@.len(),
                !found ==> first_match(q, ns, 0) == first_match(q, ns, i as nat),
                found ==> i > 0 && first_match(q, ns, 0) == Some((i - 1) as nat)
                    && width == placeholder((i - 1) as nat).len(),
            decreases names.len() - i,
        {
            let t = placeholder_text(i);
            if occurs_at(path, len, pos, t.as_str()) {
                found = true;
                width = t.as_str().unicode_len();
            }
            i = i + 1;
        }
        proof {
            lemma_first_match_some(q, ns, 0);
            if !found {
                assert(first_match(q, ns, i as nat) == None::<nat>);
            }
        }
        if found {
            let k = i - 1;
            proof { reveal_strlit("{"); reveal_strlit("}"); }
            out.append("{");
            out.append(names[k].as_str());
            out.append("}");
            proof {
                assert(p.skip(pos as int).skip(width as int) =~= p.skip(pos + width));
            }
            pos = pos + width;
        } else {
            let c = path.substring_char(pos, pos + 1);
            out.append(c);
            proof {
                assert(q.drop_first() =~= p.skip(pos + 1));
                assert(c@ =~= seq![q[0]]);
            }
            pos = pos + 1;
        }
    }
    assert(p.skip(len as int) =~= Seq::<char>::empty());
    out
}

/// The position at which an entry with code `c` goes into `s`: after every
/// entry whose code is not greater than `c`.
pub open spec fn first_greater(s: Seq<(u16, usize)>, c: u16) -> nat
    decreases s.len(),
{
    if s.len() == 0 {
        0
    } else if s[0].0 > c {
        0
    } else {
        1 + first_greater(s.drop_first(), c)
    }
}

pub open spec fn insert_sorted(s: Seq<(u16, usize)>, e: (u16, usize)) -> Seq<(u16, usize)> {
    s.insert(first_greater(s, e.0) as int, e)
}

/// `s` ordered by code; entries with equal codes keep their order.
pub open spec fn sort_by_code(s: Seq<(u16, usize)>) -> Seq<(u16, usize)>
    decreases s.len(),
{
    if s.len() == 0 {
        Seq::empty()
    } else {
        insert_sorted(sort_by_code(s.drop_last()), s.last())
    }
}

pub open spec fn sorted_by_code(s: Seq<(u16, usize)>) -> bool {
    forall|i: int, j: int| 0 <= i < j < s.len() ==> s[i].0 <= s[j].0
}

proof fn lemma_first_greater_bound(s: Seq<(u16, usize)>, c: u16)
    ensures
        first_greater(s, c) <= s.len(),
        forall|k: int| 0 <= k < first_greater(s, c) ==> s[k].0 <= c,
        first_greater(s, c) < s.len() ==> s[first_greater(s, c) as int].0 > c,
    decreases s.len(),
{
    if s.len() > 0 && s[0].0 <= c {
        lemma_first_greater_bound(s.drop_first(), c);
        assert forall|k: int| 0 <= k < first_greater(s, c) implies s[k].0 <= c by {
            if k > 0 {
                assert(s[k] == s.drop_first()[k - 1]);
            }
        }
    }
}

proof fn lemma_first_greater_at(s: Seq<(u16, usize)>, c: u16, j: nat)
    requires
        j <= s.len(),
        forall|k: int| 0 <= k < j ==> s[k].0 <= c,
        j < s.len() ==> s[j as int].0 > c,
    ensures
        first_greater(s, c) == j,
    decreases s.len(),
{
    if s.len() > 0 && j > 0 {
        assert forall|k: int| 0 <= k < j - 1 implies s.drop_first()[k].0 <= c by {
            assert(s.drop_first()[k] == s[k + 1]);
        }
        lemma_first_greater_at(s.drop_first(), c, (j - 1) as nat);
    }
}

proof fn lemma_insert_sorted(s: Seq<(u16, usize)>, e: (u16, usize))
    requires
        sorted_by_code(s),
    ensures
        sorted_by_code(insert_sorted(s, e)),
        insert_sorted(s, e).to_multiset() == s.to_multiset().insert(e),
        insert_sorted(s, e).len() == s.len() + 1,
{
    broadcast use vstd::seq_lib::to_multiset_insert;
    lemma_first_greater_bound(s, e.0);
    let k = first_greater(s, e.0) as int;
    let t = insert_sorted(s, e);
    assert forall|i: int, j: int| 0 <= i < j < t.len() implies t[i].0 <= t[j].0 by {
        if j < k {
        } else if j == k {
        } else if i < k {
            assert(s[i].0 <= e.0);
            if k < s.len() {
                assert(s[k].0 > e.0);
            }
        } else if i == k {
            assert(s[k].0 > e.0);
        } else {
        }
    }
}

/// Ordering by code gives a sorted sequence with the same entries.
pub proof fn lemma_sort_by_code(s: Seq<(u16, usize)>)
    ensures
        sorted_by_code(sort_by_code(s)),
        sort_by_code(s).to_multiset() == s.to_multiset(),
        sort_by_code(s).len() == s.len(),
    decreases s.len(),
{
    broadcast use vstd::seq_lib::to_multiset_build;
    broadcast use vstd::seq_lib::to_multiset_len;
    if s.len() > 0 {
        lemma_sort_by_code(s.drop_last());
        lemma_insert_sorted(sort_by_code(s.drop_last()), s.last());
        assert(s.drop_last().push(s.last()) =~= s);
        assert(s.drop_last().push(s.last()).to_multiset() == s.drop_last().to_multiset().insert(s.last()));
    } else {
        assert(s =~= Seq::<(u16, usize)>::empty());
    }
}

/// The status code of each response, with its position.
pub open spec fn keys<R>(rs: Seq<(u16, R)>) -> Seq<(u16, usize)> {
    Seq::new(rs.len(), |i: int| (rs[i].0, i as usize))
}

/// The positions of the responses of `rs`, ordered by status code.
pub fn response_order(rs: &Vec<(u16, DocumentedResponse)>) -> (r: Vec<(u16, usize)>)
    ensures
        r@ == sort_by_code(keys(rs@)),
{
    let ghost ks = keys(rs@);
    let mut out: Vec<(u16, usize)> = Vec::new();
    let mut i: usize = 0;
    while i < rs.len()
        invariant
            i <= rs.len(),
            ks == keys(rs@),
            out@ == sort_by_code(ks.take(i as int)),
        decreases rs.len() - i,
    {
        let c = rs[i].0;
        let mut j: usize = 0;
        while j < out.len() && out[j].0 <= c
            invariant
                j <= out.len(),
                forall|k: int| 0 <= k < j ==> out@[k].0 <= c,
            decreases out.len() - j,
        {
            j = j + 1;
        }
        proof {
            lemma_first_greater_at(out@, c, j as nat);
            assert(ks.take(i + 1).drop_last() =~= ks.take(i as int));
        }
        out.insert(j, (c, i));
        i = i + 1;
    }
    assert(ks.take(i as int) =~= ks);
    out
}

/// Where a parameter is read from.
#[derive(Clone, Copy, Debug, PartialEq, Eq, Structural)]
pub enum ParameterLocation {
    Path,
    Header,
    Query,
    Cookie,
}

/// A parameter of an operation.
#[derive(Debug)]
pub struct ApiParameter {
    pub location: ParameterLocation,
    pub name: String,
    pub description: Option<String>,
    pub required: bool,
    pub schema: Schema,
}

pub struct ParameterModel {
    pub location: ParameterLocation,
    pub name: String,
    pub description: Option<String>,
    pub required: bool,
    pub schema: SchemaModel,
}

impl ApiParameter {
    pub open spec fn model(&self) -> ParameterModel {
        ParameterModel {
            location: self.location,
            name: self.name,
            description: self.description,
            required: self.required,
            schema: self.schema.model(),
        }
    }
}

pub open spec fn path_param(p: ParamModel) -> ParameterModel {
    ParameterModel {
        location: ParameterLocation::Path,
        name: p.name,
        description: p.description,
        required: true,
        schema: render_spec(p.parameter_type),
    }
}

pub open spec fn header_param(h: DocumentedHeader) -> ParameterModel {
    ParameterModel {
        location: ParameterLocation::Header,
        name: h.name,
        description: h.description,
        required: h.required,
        schema: string_schema(),
    }
}

pub open spec fn query_param(q: QueryModel) -> ParameterModel {
    ParameterModel {
        location: ParameterLocation::Query,
        name: q.name,
        description: q.description,
        required: q.required,
        schema: string_schema(),
    }
}

pub open spec fn cookie_param(c: DocumentedCookie) -> ParameterModel {
    ParameterModel {
        location: ParameterLocation::Cookie,
        name: c.name,
        description: c.description,
        required: c.required,
        schema: string_schema(),
    }
}

/// The parameters of a route's operation: path parameters, then headers,
/// queries and cookies, each in the order documented.
pub open spec fn operation_parameters(r: RouteModel) -> Seq<ParameterModel> {
    r.parameters.map_values(|p: ParamModel| path_param(p))
        + r.headers.map_values(|h: DocumentedHeader| header_param(h))
        + r.queries.map_values(|q: QueryModel| query_param(q))
        + r.cookies.map_values(|c: DocumentedCookie| cookie_param(c))
}

/// A header a response carries.
#[derive(Debug)]
pub struct ApiResponseHeader {
    pub name: String,
    pub description: Option<String>,
}

/// A body of a response under one media type.
#[derive(Debug)]
pub struct ApiMedia {
    pub mime: String,
    pub schema: Schema,
}

pub struct MediaModel {
    pub mime: Seq<char>,
    pub schema: SchemaModel,
}

/// A response of an operation.
#[derive(Debug)]
pub struct ApiResponse {
    pub description: String,
    pub headers: Vec<ApiResponseHeader>,
    pub content: Vec<ApiMedia>,
}

pub struct ApiResponseModel {
    pub description: String,
    pub headers: Seq<ApiResponseHeader>,
    pub content: Seq<MediaModel>,
}

impl ApiResponse {
    pub open spec fn model(&self) -> ApiResponseModel {
        ApiResponseModel {
            description: self.description,
            headers: self.headers@,
            content: self.content@.map_values(|m: ApiMedia| MediaModel { mime: m.mime@, schema: m.schema.model() }),
        }
    }
}

/// The media type of a body: the one documented, else any.
pub open spec fn mime_of(m: Option<String>) -> Seq<char> {
    match m {
        Some(t) => t@,
        None => seq!['*', '/', '*'],
    }
}

pub open spec fn render_response(r: ResponseModel) -> ApiResponseModel {
    ApiResponseModel {
        description: r.description,
        headers: r.headers.map_values(|h: DocumentedHeader| ApiResponseHeader { name: h.name, description: h.description }),
        content: r.body.map_values(|b: BodyModel| MediaModel { mime: mime_of(b.mime), schema: render_spec(b.body) }),
    }
}

/// An operation: what one route documents under one method.
#[derive(Debug)]
pub struct ApiOperation {
    pub parameters: Vec<ApiParameter>,
    pub responses: Vec<(u16, ApiResponse)>,
}

pub struct OperationModel {
    pub parameters: Seq<ParameterModel>,
    pub responses: Seq<(u16, ApiResponseModel)>,
}

impl ApiOperation {
    pub open spec fn model(&self) -> OperationModel {
        OperationModel {
            parameters: self.parameters@.map_values(|p: ApiParameter| p.model()),
            responses: self.responses@.map_values(|e: (u16, ApiResponse)| (e.0, e.1.model())),
        }
    }
}

/// The responses of a route rendered in ascending order of status code.
pub open spec fn operation_responses(rs: Seq<(u16, ResponseModel)>) -> Seq<(u16, ApiResponseModel)> {
    sort_by_code(keys(rs)).map_values(|k: (u16, usize)| (k.0, render_response(rs[k.1 as int].1)))
}

pub open spec fn operation_spec(r: RouteModel) -> OperationModel {
    OperationModel {
        parameters: operation_parameters(r),
        responses: operation_responses(r.responses),
    }
}

/// One route of the API description, under its path and method.
#[derive(Debug)]
pub struct ApiPath {
    pub path: String,
    pub method: Method,
    pub operation: ApiOperation,
}

pub struct PathModel {
    pub path: Seq<char>,
    pub method: Method,
    pub operation: OperationModel,
}

impl ApiPath {
    pub open spec fn model(&self) -> PathModel {
        PathModel { path: self.path@, method: self.method, operation: self.operation.model() }
    }
}

pub open spec fn parameter_names(r: RouteModel) -> Seq<Seq<char>> {
    r.parameters.map_values(|p: ParamModel| p.name@)
}

/// A route translated: placeholders renamed after the parameters, the
/// method defaulting to `POST`.
pub open spec fn path_spec(r: RouteModel) -> PathModel {
    PathModel {
        path: rename(r.path, parameter_names(r)),
        method: match r.method {
            Some(m) => m,
            None => Method::Post,
        },
        operation: operation_spec(r),
    }
}

/// The API description document.
#[derive(Debug)]
pub struct ApiDocument {
    pub openapi: String,
    pub paths: Vec<ApiPath>,
}

fn string_parameter(
    location: ParameterLocation,
    name: &String,
    description: &Option<String>,
    required: bool,
) -> (r: ApiParameter)
    ensures
        r.model() == (ParameterModel {
            location,
            name: *name,
            description: *description,
            required,
            schema: string_schema(),
        }),
{
    ApiParameter {
        location,
        name: name.clone(),
        description: crate::document::copy_text(description),
        required,
        schema: string_schema_exec(),
    }
}

/// The parameters of the operation of `route`.
pub fn parameters_of(route: &RouteDocumentation) -> (r: Vec<ApiParameter>)
    ensures
        r@.map_values(|p: ApiParameter| p.model()) == operation_parameters(route.deep()),
{
    let ghost m = route.deep();
    let ghost target = operation_parameters(m);
    let mut out: Vec<ApiParameter> = Vec::new();
    let mut i: usize = 0;
    while i < route.parameters.len()
        invariant
            m == route.deep(),
            target == operation_parameters(m),
            i <= route.parameters.len(),
            out.len() == i,
            forall|j: int| 0 <= j < out.len() ==> (#[trigger] out@[j]).model() == target[j],
        decreases route.parameters.len() - i,
    {
        let p = &route.parameters[i];
        out.push(ApiParameter {
            location: ParameterLocation::Path,
            name: p.name.clone(),
            description: crate::document::copy_text(&p.description),
            required: true,
            schema: render(&p.parameter_type),
        });
        i = i + 1;
    }
    let base = out.len();
    let mut i: usize = 0;
    while i < route.headers.len()
        invariant
            m == route.deep(),
            target == operation_parameters(m),
            base == route.parameters.len(),
            i <= route.headers.len(),
            out.len() == base + i,
            forall|j: int| 0 <= j < out.len() ==> (#[trigger] out@[j]).model() == target[j],
        decreases route.headers.len() - i,
    {
        let h = &route.headers[i];
        out.push(string_parameter(ParameterLocation::Header, &h.name, &h.description, h.required));
        i = i + 1;
    }
    let base = out.len();
    let mut i: usize = 0;
    while i < route.queries.len()
        invariant
            m == route.deep(),
            target == operation_parameters(m),
            base == route.parameters.len() + route.headers.len(),
            i <= route.queries.len(),
            out.len() == base + i,
            forall|j: int| 0 <= j < out.len() ==> (#[trigger] out@[j]).model() == target[j],
        decreases route.queries.len() - i,
    {
        let q = &route.queries[i];
        out.push(string_parameter(ParameterLocation::Query, &q.name, &q.description, q.required));
        i = i + 1;
    }
    let base = out.len();
    let mut i: usize = 0;
    while i < route.cookies.len()
        invariant
            m == route.deep(),
            target == operation_parameters(m),
            base == route.parameters.len() + route.headers.len() + route.queries.len(),
            i <= route.cookies.len(),
            out.len() == base + i,
            forall|j: int| 0 <= j < out.len() ==> (#[trigger] out@[j]).model() == target[j],
        decreases route.cookies.len() - i,
    {
        let c = &route.cookies[i];
        out.push(string_parameter(ParameterLocation::Cookie, &c.name, &c.description, c.required));
        i = i + 1;
    }
    assert(out@.map_values(|p: ApiParameter| p.model()) =~= target);
    out
}

/// Renders one documented response.
pub fn response_of(resp: &DocumentedResponse) -> (r: ApiResponse)
    ensures
        r.model() == render_response(resp.deep()),
{
    let ghost m = resp.deep();
    let mut headers: Vec<ApiResponseHeader> = Vec::new();
    let mut i: usize = 0;
    while i < resp.headers.len()
        invariant
            m == resp.deep(),
            i <= resp.headers.len(),
            headers.len() == i,
            forall|j: int| 0 <= j < i ==> #[trigger] headers@[j] == (ApiResponseHeader {
                name: resp.headers@[j].name,
                description: resp.headers@[j].description,
            }),
        decreases resp.headers.len() - i,
    {
        let h = &resp.headers[i];
        headers.push(ApiResponseHeader { name: h.name.clone(), description: crate::document::copy_text(&h.description) });
        i = i + 1;
    }
    let mut content: Vec<ApiMedia> = Vec::new();
    let mut i: usize = 0;
    while i < resp.body.len()
        invariant
            m == resp.deep(),
            i <= resp.body.len(),
            content.len() == i,
            forall|j: int| 0 <= j < i ==> (#[trigger] content@[j]).mime@ == mime_of(resp.body@[j].mime)
                && content@[j].schema.model() == render_spec(resp.body@[j].body.model()),
        decreases resp.body.len() - i,
    {
        let b = &resp.body[i];
        let mime = match &b.mime {
            Some(t) => t.clone(),
            None => {
                proof { reveal_strlit("*/*"); }
                String::from_str("*/*")
            },
        };
        content.push(ApiMedia { mime, schema: render(&b.body) });
        i = i + 1;
    }
    let r = ApiResponse { description: resp.description.clone(), headers, content };
    assert(r.model().headers =~= render_response(m).headers);
    assert(r.model().content =~= render_response(m).content);
    r
}

proof fn lemma_order_entries<R>(rs: Seq<(u16, R)>)
    requires
        rs.len() <= usize::MAX,
    ensures
        forall|k: int| 0 <= k < sort_by_code(keys(rs)).len() ==> {
            let e = #[trigger] sort_by_code(keys(rs))[k];
            e.1 < rs.len() && e.0 == rs[e.1 as int].0
        },
{
    lemma_sort_by_code(keys(rs));
    let s = sort_by_code(keys(rs));
    s.to_multiset_ensures();
    keys(rs).to_multiset_ensures();
    assert forall|k: int| 0 <= k < s.len() implies {
        let e = #[trigger] s[k];
        e.1 < rs.len() && e.0 == rs[e.1 as int].0
    } by {
        assert(s.contains(s[k]));
        assert(s.to_multiset().count(s[k]) > 0);
        assert(keys(rs).to_multiset().count(s[k]) > 0);
        assert(keys(rs).contains(s[k]));
        let i = choose|i: int| 0 <= i < keys(rs).len() && keys(rs)[i] == s[k];
        assert(i as usize == i);
    }
}

/// The responses of the operation of `route`, ordered by status code.
pub fn responses_of(route: &RouteDocumentation) -> (r: Vec<(u16, ApiResponse)>)
    ensures
        r@.map_values(|e: (u16, ApiResponse)| (e.0, e.1.model())) == operation_responses(route.deep().responses),
{
    let ghost rm = route.deep().responses;
    let order = response_order(&route.responses);
    proof {
        assert(route.responses@.len() == route.responses.len());
        lemma_order_entries(route.responses@);
        lemma_sort_by_code(keys(route.responses@));
        assert(keys(rm) =~= keys(route.responses@));
    }
    let mut out: Vec<(u16, ApiResponse)> = Vec::new();
    let mut k: usize = 0;
    while k < order.len()
        invariant
            rm == route.deep().responses,
            order@ == sort_by_code(keys(route.responses@)),
            keys(rm) == keys(route.responses@),
            forall|x: int| 0 <= x < order.len() ==> {
                let e = #[trigger] order@[x];
                e.1 < route.responses.len() && e.0 == route.responses@[e.1 as int].0
            },
            k <= order.len(),
            out.len() == k,
            forall|j: int| 0 <= j < k ==> (#[trigger] out@[j]).0 == order@[j].0
                && out@[j].1.model() == render_response(rm[order@[j].1 as int].1),
        decreases order.len() - k,
    {
        let (code, at) = order[k];
        let resp = response_of(&route.responses[at].1);
        out.push((code, resp));
        k = k + 1;
    }
    assert(out@.map_values(|e: (u16, ApiResponse)| (e.0, e.1.model())) =~= operation_responses(rm));
    out
}

/// Translates one route.
pub fn path_of(route: &RouteDocumentation) -> (r: ApiPath)
    ensures
        r.model() == path_spec(route.deep()),
{
    let ghost m = route.deep();
    let mut names: Vec<String> = Vec::new();
    let mut i: usize = 0;
    while i < route.parameters.len()
        invariant
            m == route.deep(),
            i <= route.parameters.len(),
            names.len() == i,
            forall|j: int| 0 <= j < i ==> #[trigger] names@[j] == route.parameters@[j].name,
        decreases route.parameters.len() - i,
    {
        names.push(route.parameters[i].name.clone());
        i = i + 1;
    }
    assert(names@.map_values(|n: String| n@) =~= parameter_names(m));
    let path = rename_placeholders(route.path.as_str(), &names);
    let method = match route.method {
        Some(meth) => meth,
        None => Method::Post,
    };
    let operation = ApiOperation { parameters: parameters_of(route), responses: responses_of(route) };
    ApiPath { path, method, operation }
}

/// Translates documented routes into an API description, version `3.0.0`,
/// with one entry per route, in order.
pub fn to_openapi(routes: Vec<RouteDocumentation>) -> (r: ApiDocument)
    ensures
        r.openapi@ == seq!['3', '.', '0', '.', '0'],
        r.paths@.map_values(|p: ApiPath| p.model()) == deep_all(routes@).map_values(|m: RouteModel| path_spec(m)),
{
    let mut paths: Vec<ApiPath> = Vec::new();
    let mut i: usize = 0;
    while i < routes.len()
        invariant
            i <= routes.len(),
            paths.len() == i,
            forall|j: int| 0 <= j < i ==> (#[trigger] paths@[j]).model() == path_spec(routes@[j].deep()),
        decreases routes.len() - i,
    {
        paths.push(path_of(&routes[i]));
        i = i + 1;
    }
    assert(paths@.map_values(|p: ApiPath| p.model()) =~= deep_all(routes@).map_values(|m: RouteModel| path_spec(m)));
    proof { reveal_strlit("3.0.0"); }
    let openapi = String::from_str("3.0.0");
    ApiDocument { openapi, paths }
}

/// Responses are rendered in ascending order of status code, whatever the
/// order they were documented in, and each documented entry is rendered once.
pub proof fn lemma_responses_ascending(rs: Seq<(u16, ResponseModel)>)
    requires
        rs.len() <= usize::MAX,
    ensures
        operation_responses(rs).len() == rs.len(),
        forall|i: int, j: int| 0 <= i < j < rs.len()
            ==> operation_responses(rs)[i].0 <= operation_responses(rs)[j].0,
        sort_by_code(keys(rs)).to_multiset() == keys(rs).to_multiset(),
        forall|k: int| 0 <= k < rs.len() ==> {
            let e = #[trigger] sort_by_code(keys(rs))[k];
            e.1 < rs.len() && operation_responses(rs)[k] == (rs[e.1 as int].0, render_response(rs[e.1 as int].1))
        },
{
    lemma_sort_by_code(keys(rs));
    lemma_order_entries(rs);
}

proof fn lemma_no_match(p: Seq<char>, ns: Seq<Seq<char>>, i: nat)
    requires
        p.len() > 0,
        p[0] != '{',
    ensures
        first_match(p, ns, i) == None::<nat>,
    decreases ns.len() - i,
{
    if i < ns.len() {
        assert(placeholder(i)[0] == '{');
        lemma_no_match(p, ns, i + 1);
    }
}

proof fn lemma_rename_plain(p: Seq<char>, ns: Seq<Seq<char>>)
    requires
        p.len() > 0,
        p[0] != '{',
    ensures
        rename(p, ns) == seq![p[0]] + rename(p.drop_first(), ns),
{
    lemma_no_match(p, ns, 0);
}

proof fn lemma_rename_hole(p: Seq<char>, ns: Seq<Seq<char>>, k: nat)
    requires
        k < ns.len(),
        first_match(p, ns, 0) == Some(k),
    ensures
        rename(p, ns) == seq!['{'] + ns[k as int] + seq!['}'] + rename(p.skip(placeholder(k).len() as int), ns),
{
    lemma_first_match_some(p, ns, 0);
    assert(p.len() > 0) by {
        assert(placeholder(k).len() >= 2);
    }
}

/// Positional placeholders are renamed in order, and nothing else changes:
/// `/a/{0}/b/{1}` with parameters named `n0`, `n1` becomes `/a/{n0}/b/{n1}`.
pub proof fn lemma_rename_in_order(n0: Seq<char>, n1: Seq<char>)
    ensures
        rename(seq!['/', 'a', '/', '{', '0', '}', '/', 'b', '/', '{', '1', '}'], seq![n0, n1])
            == seq!['/', 'a', '/', '{'] + n0 + seq!['}', '/', 'b', '/', '{'] + n1 + seq!['}'],
{
    let ns = seq![n0, n1];
    let p = seq!['/', 'a', '/', '{', '0', '}', '/', 'b', '/', '{', '1', '}'];
    assert(decimal(0) == seq!['0']);
    assert(decimal(1) == seq!['1']);
    assert(placeholder(0) =~= seq!['{', '0', '}']);
    assert(placeholder(1) =~= seq!['{', '1', '}']);
    let e = Seq::<char>::empty();
    lemma_rename_plain(p, ns);
    lemma_rename_plain(p.skip(1), ns);
    assert(p.drop_first() =~= p.skip(1));
    assert(p.skip(1).drop_first() =~= p.skip(2));
    lemma_rename_plain(p.skip(2), ns);
    assert(p.skip(2).drop_first() =~= p.skip(3));
    assert(placeholder(0).is_prefix_of(p.skip(3))) by {
        assert(p.skip(3).subrange(0, 3) =~= placeholder(0));
    }
    lemma_rename_hole(p.skip(3), ns, 0);
    assert(p.skip(3).skip(3) =~= p.skip(6));
    lemma_rename_plain(p.skip(6), ns);
    assert(p.skip(6).drop_first() =~= p.skip(7));
    lemma_rename_plain(p.skip(7), ns);
    assert(p.skip(7).drop_first() =~= p.skip(8));
    lemma_rename_plain(p.skip(8), ns);
    assert(p.skip(8).drop_first() =~= p.skip(9));
    assert(!placeholder(0).is_prefix_of(p.skip(9))) by {
        assert(p.skip(9)[1] != placeholder(0)[1]);
    }
    assert(placeholder(1).is_prefix_of(p.skip(9))) by {
        assert(p.skip(9).subrange(0, 3) =~= placeholder(1));
    }
    assert(first_match(p.skip(9), ns, 1) == Some(1nat));
    assert(first_match(p.skip(9), ns, 0) == Some(1nat));
    lemma_rename_hole(p.skip(9), ns, 1);
    assert(p.skip(9).skip(3) =~= e);
    assert(rename(e, ns) == e);
    assert(rename(p, ns) =~= seq!['/', 'a', '/', '{'] + n0 + seq!['}', '/', 'b', '/', '{'] + n1 + seq!['}']);
}

} // verus!
