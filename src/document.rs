use vstd::prelude::*;

verus! {

broadcast use vstd::std_specs::vec::group_vec_axioms;

/// The HTTP method an operation is documented under.
#[derive(Clone, Copy, Debug, PartialEq, Eq, Structural)]
pub enum Method {
    Get,
    Post,
    Put,
    Delete,
    Head,
    Options,
    Patch,
    Trace,
}

/// The scalar kinds a primitive documented type can have.
#[derive(Clone, Copy, Debug, PartialEq, Eq, Structural)]
pub enum InternalDocumentedType {
    Boolean,
    Float,
    Integer,
    String,
}

/// The closed set of host value kinds that have a default documented shape.
#[derive(Clone, Copy, Debug, PartialEq, Eq, Structural)]
pub enum HostType {
    U8,
    U16,
    U32,
    U64,
    U128,
    I8,
    I16,
    I32,
    I64,
    I128,
    Text,
    Other,
}

/// The shape of a documented value.
#[derive(Debug)]
pub enum DocumentedType {
    Array(Box<DocumentedType>),
    Object(Vec<(String, DocumentedType)>),
    Primitive { ty: InternalDocumentedType, documentation: Option<String>, required: bool },
}

/// Mathematical model of a `DocumentedType`.
pub enum TypeModel {
    Array(Box<TypeModel>),
    Object(Seq<(String, TypeModel)>),
    Primitive { ty: InternalDocumentedType, documentation: Option<String>, required: bool },
}

/// Models of the named fields of an object, in order.
pub open spec fn fields_model(fs: Seq<(String, DocumentedType)>) -> Seq<(String, TypeModel)>
    decreases fs,
{
    if fs.len() == 0 {
        Seq::empty()
    } else {
        seq![(fs[0].0, fs[0].1.model())] + fields_model(fs.drop_first())
    }
}

pub proof fn lemma_fields_model(fs: Seq<(String, DocumentedType)>)
    ensures
        fields_model(fs).len() == fs.len(),
        forall|j: int| 0 <= j < fs.len() ==> #[trigger] fields_model(fs)[j] == (fs[j].0, fs[j].1.model()),
    decreases fs.len(),
{
    if fs.len() > 0 {
        lemma_fields_model(fs.drop_first());
        assert forall|j: int| 0 <= j < fs.len() implies #[trigger] fields_model(fs)[j] == (fs[j].0, fs[j].1.model()) by {
            if j > 0 {
                assert(fs.drop_first()[j - 1] == fs[j]);
            }
        }
    }
}

pub open spec fn primitive_model(ty: InternalDocumentedType) -> TypeModel {
    TypeModel::Primitive { ty, documentation: None, required: true }
}

impl DocumentedType {
    pub open spec fn model(&self) -> TypeModel
        decreases self,
    {
        match self {
            DocumentedType::Array(inner) => TypeModel::Array(Box::new((**inner).model())),
            DocumentedType::Object(fields) => TypeModel::Object(fields_model(fields@)),
            DocumentedType::Primitive { ty, documentation, required } => TypeModel::Primitive {
                ty: *ty,
                documentation: *documentation,
                required: *required,
            },
        }
    }

    pub fn boolean() -> (r: Self)
        ensures
            r.model() == primitive_model(InternalDocumentedType::Boolean),
    {
        DocumentedType::Primitive { ty: InternalDocumentedType::Boolean, documentation: None, required: true }
    }

    pub fn float() -> (r: Self)
        ensures
            r.model() == primitive_model(InternalDocumentedType::Float),
    {
        DocumentedType::Primitive { ty: InternalDocumentedType::Float, documentation: None, required: true }
    }

    pub fn integer() -> (r: Self)
        ensures
            r.model() == primitive_model(InternalDocumentedType::Integer),
    {
        DocumentedType::Primitive { ty: InternalDocumentedType::Integer, documentation: None, required: true }
    }

    pub fn string() -> (r: Self)
        ensures
            r.model() == primitive_model(InternalDocumentedType::String),
    {
        DocumentedType::Primitive { ty: InternalDocumentedType::String, documentation: None, required: true }
    }

    pub fn object(fields: Vec<(String, DocumentedType)>) -> (r: Self)
        ensures
            r == DocumentedType::Object(fields),
    {
        DocumentedType::Object(fields)
    }

    /// A deep copy with the same model.
    pub fn duplicate(&self) -> (r: Self)
        ensures
            r.model() == self.model(),
        decreases self,
    {
        match self {
            DocumentedType::Array(inner) => {
                let c = (**inner).duplicate();
                let r = DocumentedType::Array(Box::new(c));
                assert(r.model() == self.model());
                r
            },
            DocumentedType::Object(fields) => {
                let mut out: Vec<(String, DocumentedType)> = Vec::new();
                let mut i: usize = 0;
                while i < fields.len()
                    invariant
                        i <= fields.len(),
                        out.len() == i,
                        *self == DocumentedType::Object(*fields),
                        forall|j: int| 0 <= j < i ==> (#[trigger] out[j]).0 == fields[j].0
                            && out[j].1.model() == fields[j].1.model(),
                    decreases fields.len() - i,
                {
                    let name = fields[i].0.clone();
                    proof {
                    assert(decreases_to!(*fields => fields[i as int]));
                    assert(decreases_to!(fields[i as int] => fields[i as int].1));
                    assert(decreases_to!(*self => self->Object_0));
                }
                let ty = fields[i].1.duplicate();
                    out.push((name, ty));
                    i = i + 1;
                }
                let r = DocumentedType::Object(out);
                proof {
                    lemma_fields_model(out@);
                    lemma_fields_model(fields@);
                    assert(fields_model(out@) =~= fields_model(fields@));
                }
                r
            },
            DocumentedType::Primitive { ty, documentation, required } => {
                DocumentedType::Primitive {
                    ty: *ty,
                    documentation: copy_text(documentation),
                    required: *required,
                }
            },
        }
    }
}

/// The default shape of a host value kind: integers of every width become
/// `integer`, text becomes `string`, anything else an empty object.
pub open spec fn host_type_model(k: HostType) -> TypeModel {
    match k {
        HostType::Text => primitive_model(InternalDocumentedType::String),
        HostType::Other => TypeModel::Object(Seq::empty()),
        _ => primitive_model(InternalDocumentedType::Integer),
    }
}

impl DocumentedType {
    /// The default documented shape of a host value kind.
    pub fn of_host(k: HostType) -> (r: Self)
        ensures
            r.model() == host_type_model(k),
    {
        match k {
            HostType::Text => DocumentedType::string(),
            HostType::Other => {
                let r = DocumentedType::object(Vec::new());
                assert(fields_model(Seq::<(String, DocumentedType)>::empty()) =~= Seq::empty());
                r
            },
            _ => DocumentedType::integer(),
        }
    }
}

pub fn copy_text(s: &Option<String>) -> (r: Option<String>)
    ensures
        r == *s,
{
    match s {
        Some(t) => Some(t.clone()),
        None => None,
    }
}

/// Values that can be copied deeply, keeping their model.
pub trait DeepCopy: Sized {
    type Model;

    spec fn deep(&self) -> Self::Model;

    fn deep_copy(&self) -> (r: Self)
        ensures
            r.deep() == self.deep(),
    ;
}

pub open spec fn deep_all<T: DeepCopy>(s: Seq<T>) -> Seq<T::Model> {
    s.map_values(|t: T| t.deep())
}

/// Copies every element of `v` deeply, in order.
pub fn copy_all<T: DeepCopy>(v: &Vec<T>) -> (r: Vec<T>)
    ensures
        deep_all(r@) == deep_all(v@),
{
    let mut out: Vec<T> = Vec::new();
    let mut i: usize = 0;
    while i < v.len()
        invariant
            i <= v.len(),
            out.len() == i,
            forall|j: int| 0 <= j < i ==> (#[trigger] out@[j]).deep() == v@[j].deep(),
        decreases v.len() - i,
    {
        out.push(v[i].deep_copy());
        i = i + 1;
    }
    assert(deep_all(out@) =~= deep_all(v@));
    out
}

impl DeepCopy for DocumentedType {
    type Model = TypeModel;

    open spec fn deep(&self) -> TypeModel {
        self.model()
    }

    fn deep_copy(&self) -> (r: Self) {
        self.duplicate()
    }
}

/// A cookie that an operation reads.
#[derive(Debug)]
pub struct DocumentedCookie {
    pub name: String,
    pub description: Option<String>,
    pub required: bool,
}

impl DeepCopy for DocumentedCookie {
    type Model = DocumentedCookie;

    open spec fn deep(&self) -> DocumentedCookie {
        *self
    }

    fn deep_copy(&self) -> (r: Self) {
        DocumentedCookie {
            name: self.name.clone(),
            description: copy_text(&self.description),
            required: self.required,
        }
    }
}

/// A header that an operation reads or a response carries.
#[derive(Debug)]
pub struct DocumentedHeader {
    pub name: String,
    pub description: Option<String>,
    pub required: bool,
}

impl DeepCopy for DocumentedHeader {
    type Model = DocumentedHeader;

    open spec fn deep(&self) -> DocumentedHeader {
        *self
    }

    fn deep_copy(&self) -> (r: Self) {
        DocumentedHeader {
            name: self.name.clone(),
            description: copy_text(&self.description),
            required: self.required,
        }
    }
}

/// A positional path parameter.
#[derive(Debug)]
pub struct DocumentedParameter {
    pub name: String,
    pub description: Option<String>,
    pub parameter_type: DocumentedType,
}

pub struct ParamModel {
    pub name: String,
    pub description: Option<String>,
    pub parameter_type: TypeModel,
}

impl DeepCopy for DocumentedParameter {
    type Model = ParamModel;

    open spec fn deep(&self) -> ParamModel {
        ParamModel {
            name: self.name,
            description: self.description,
            parameter_type: self.parameter_type.model(),
        }
    }

    fn deep_copy(&self) -> (r: Self) {
        DocumentedParameter {
            name: self.name.clone(),
            description: copy_text(&self.description),
            parameter_type: self.parameter_type.duplicate(),
        }
    }
}

/// A field of the query string.
#[derive(Debug)]
pub struct DocumentedQuery {
    pub name: String,
    pub description: Option<String>,
    pub parameter_type: DocumentedType,
    pub required: bool,
}

pub struct QueryModel {
    pub name: String,
    pub description: Option<String>,
    pub parameter_type: TypeModel,
    pub required: bool,
}

impl DeepCopy for DocumentedQuery {
    type Model = QueryModel;

    open spec fn deep(&self) -> QueryModel {
        QueryModel {
            name: self.name,
            description: self.description,
            parameter_type: self.parameter_type.model(),
            required: self.required,
        }
    }

    fn deep_copy(&self) -> (r: Self) {
        DocumentedQuery {
            name: self.name.clone(),
            description: copy_text(&self.description),
            parameter_type: self.parameter_type.duplicate(),
            required: self.required,
        }
    }
}

/// One body a response may carry, with its media type.
#[derive(Debug)]
pub struct DocumentedResponseBody {
    pub body: DocumentedType,
    pub mime: Option<String>,
}

pub struct BodyModel {
    pub body: TypeModel,
    pub mime: Option<String>,
}

impl DeepCopy for DocumentedResponseBody {
    type Model = BodyModel;

    open spec fn deep(&self) -> BodyModel {
        BodyModel { body: self.body.model(), mime: self.mime }
    }

    fn deep_copy(&self) -> (r: Self) {
        DocumentedResponseBody { body: self.body.duplicate(), mime: copy_text(&self.mime) }
    }
}

impl Default for DocumentedResponseBody {
    /// An empty object with no media type.
    fn default() -> (r: Self)
        ensures
            r.deep() == (BodyModel { body: TypeModel::Object(Seq::empty()), mime: None }),
    {
        let r = DocumentedResponseBody { body: DocumentedType::object(Vec::new()), mime: None };
        assert(fields_model(Seq::<(String, DocumentedType)>::empty()) =~= Seq::empty());
        r
    }
}

/// A response under one status code.
#[derive(Debug)]
pub struct DocumentedResponse {
    pub description: String,
    pub headers: Vec<DocumentedHeader>,
    pub body: Vec<DocumentedResponseBody>,
}

pub struct ResponseModel {
    pub description: String,
    pub headers: Seq<DocumentedHeader>,
    pub body: Seq<BodyModel>,
}

impl DocumentedResponse {
    /// A response with a description and neither headers nor body.
    pub fn new(description: String) -> (r: Self)
        ensures
            r.description == description,
            r.headers@.len() == 0,
            r.body@.len() == 0,
    {
        DocumentedResponse { description, headers: Vec::new(), body: Vec::new() }
    }
}

impl Default for DocumentedResponse {
    /// An empty description with neither headers nor body.
    fn default() -> (r: Self)
        ensures
            r.description@.len() == 0,
            r.headers@.len() == 0,
            r.body@.len() == 0,
    {
        DocumentedResponse::new(String::new())
    }
}

impl DeepCopy for DocumentedResponse {
    type Model = ResponseModel;

    open spec fn deep(&self) -> ResponseModel {
        ResponseModel {
            description: self.description,
            headers: deep_all(self.headers@),
            body: deep_all(self.body@),
        }
    }

    fn deep_copy(&self) -> (r: Self) {
        DocumentedResponse {
            description: self.description.clone(),
            headers: copy_all(&self.headers),
            body: copy_all(&self.body),
        }
    }
}

impl DeepCopy for (u16, DocumentedResponse) {
    type Model = (u16, ResponseModel);

    open spec fn deep(&self) -> (u16, ResponseModel) {
        (self.0, self.1.deep())
    }

    fn deep_copy(&self) -> (r: Self) {
        (self.0, self.1.deep_copy())
    }
}

/// Everything documented so far about one route.
#[derive(Debug)]
pub struct RouteDocumentation {
    pub cookies: Vec<DocumentedCookie>,
    pub headers: Vec<DocumentedHeader>,
    pub method: Option<Method>,
    pub parameters: Vec<DocumentedParameter>,
    pub path: String,
    pub queries: Vec<DocumentedQuery>,
    pub responses: Vec<(u16, DocumentedResponse)>,
}

pub struct RouteModel {
    pub cookies: Seq<DocumentedCookie>,
    pub headers: Seq<DocumentedHeader>,
    pub method: Option<Method>,
    pub parameters: Seq<ParamModel>,
    pub path: Seq<char>,
    pub queries: Seq<QueryModel>,
    pub responses: Seq<(u16, ResponseModel)>,
}

pub open spec fn empty_route() -> RouteModel {
    RouteModel {
        cookies: Seq::empty(),
        headers: Seq::empty(),
        method: None,
        parameters: Seq::empty(),
        path: Seq::empty(),
        queries: Seq::empty(),
        responses: Seq::empty(),
    }
}

impl DeepCopy for RouteDocumentation {
    type Model = RouteModel;

    open spec fn deep(&self) -> RouteModel {
        RouteModel {
            cookies: deep_all(self.cookies@),
            headers: deep_all(self.headers@),
            method: self.method,
            parameters: deep_all(self.parameters@),
            path: self.path@,
            queries: deep_all(self.queries@),
            responses: deep_all(self.responses@),
        }
    }

    fn deep_copy(&self) -> (r: Self) {
        RouteDocumentation {
            cookies: copy_all(&self.cookies),
            headers: copy_all(&self.headers),
            method: self.method,
            parameters: copy_all(&self.parameters),
            path: self.path.clone(),
            queries: copy_all(&self.queries),
            responses: copy_all(&self.responses),
        }
    }
}

impl Default for RouteDocumentation {
    /// A record with nothing documented yet.
    fn default() -> (r: Self)
        ensures
            r.deep() == empty_route(),
    {
        RouteDocumentation::empty()
    }
}

impl RouteDocumentation {
    /// A record with nothing documented yet.
    pub fn empty() -> (r: Self)
        ensures
            r.deep() == empty_route(),
    {
        let r = RouteDocumentation {
            cookies: Vec::new(),
            headers: Vec::new(),
            method: None,
            parameters: Vec::new(),
            path: String::new(),
            queries: Vec::new(),
            responses: Vec::new(),
        };
        assert(deep_all(r.cookies@) =~= Seq::empty());
        assert(deep_all(r.headers@) =~= Seq::empty());
        assert(deep_all(r.parameters@) =~= Seq::empty());
        assert(deep_all(r.queries@) =~= Seq::empty());
        assert(deep_all(r.responses@) =~= Seq::empty());
        r
    }

    /// Adds a cookie after those already documented.
    pub fn cookie(&mut self, c: DocumentedCookie)
        ensures
            final(self).deep() == (RouteModel { cookies: old(self).deep().cookies.push(c), ..old(self).deep() }),
    {
        self.cookies.push(c);
        assert(deep_all(self.cookies@) =~= deep_all(old(self).cookies@).push(c));
    }

    /// Adds a header after those already documented.
    pub fn header(&mut self, h: DocumentedHeader)
        ensures
            final(self).deep() == (RouteModel { headers: old(self).deep().headers.push(h), ..old(self).deep() }),
    {
        self.headers.push(h);
        assert(deep_all(self.headers@) =~= deep_all(old(self).headers@).push(h));
    }

    /// Adds a query field after those already documented.
    pub fn query(&mut self, q: DocumentedQuery)
        ensures
            final(self).deep() == (RouteModel { queries: old(self).deep().queries.push(q.deep()), ..old(self).deep() }),
    {
        let ghost m = q.deep();
        self.queries.push(q);
        assert(deep_all(self.queries@) =~= deep_all(old(self).queries@).push(m));
    }

    /// Records a response under `code`. Entries are kept in the order they
    /// were added; where a code is given twice the later entry is the one
    /// that the translated document keeps.
    pub fn response(&mut self, code: u16, r: DocumentedResponse)
        ensures
            final(self).deep() == (RouteModel {
                responses: old(self).deep().responses.push((code, r.deep())),
                ..old(self).deep()
            }),
    {
        let ghost m = (code, r.deep());
        self.responses.push((code, r));
        assert(deep_all(self.responses@) =~= deep_all(old(self).responses@).push(m));
    }
}

} // verus!
