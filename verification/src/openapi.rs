//! The produced artifact: an OpenAPI specification value — metadata, paths,
//! operations, parameters, bodies, responses, schemas and the component
//! registry — together with the mathematical mirror of each piece.
use crate::entries::Entries;
use crate::json::Json;
use crate::json::JsonV;
use vstd::prelude::*;

verus! {

/// An inline entity or a pointer into the component registry, never both.
#[derive(Debug, PartialEq)]
pub enum ObjectOrReference<T> {
    Object(T),
    Ref { ref_path: String },
}

/// The mathematical shape of [`ObjectOrReference`].
#[verifier::ext_equal]
pub enum ObjectOrReferenceV<T> {
    Object(T),
    Ref { ref_path: Seq<char> },
}

impl<T: DeepView> View for ObjectOrReference<T> {
    type V = ObjectOrReferenceV<T::V>;

    open spec fn view(&self) -> ObjectOrReferenceV<T::V> {
        match self {
            ObjectOrReference::Object(t) => ObjectOrReferenceV::Object(t.deep_view()),
            ObjectOrReference::Ref { ref_path } => ObjectOrReferenceV::Ref { ref_path: ref_path@ },
        }
    }
}

impl<T: DeepView> DeepView for ObjectOrReference<T> {
    type V = ObjectOrReferenceV<T::V>;

    open spec fn deep_view(&self) -> ObjectOrReferenceV<T::V> {
        self.view()
    }
}

/// A schema: a pointer into the registry, or an inline shape.
#[derive(Debug, PartialEq)]
pub enum Schema {
    Reference { ref_path: String },
    Inline(InlineSchema),
}

/// The inline shape of a schema: a type tag, formatting, a captured example,
/// object properties, an array item shape, or one combinator list.
#[derive(Debug, PartialEq)]
pub struct InlineSchema {
    pub schema_type: Option<String>,
    pub format: Option<String>,
    pub description: Option<String>,
    pub example: Option<Json>,
    pub properties: Option<Entries<Schema>>,
    pub required: Option<Vec<String>>,
    pub items: Option<Box<Schema>>,
    pub all_of: Option<Vec<Schema>>,
    pub any_of: Option<Vec<Schema>>,
    pub one_of: Option<Vec<Schema>>,
}

/// The mathematical shape of a [`Schema`].
#[verifier::ext_equal]
pub enum SchemaV {
    Reference { ref_path: Seq<char> },
    Inline(InlineSchemaV),
}

/// The mathematical shape of an [`InlineSchema`].
#[verifier::ext_equal]
pub struct InlineSchemaV {
    pub schema_type: Option<Seq<char>>,
    pub format: Option<Seq<char>>,
    pub description: Option<Seq<char>>,
    pub example: Option<JsonV>,
    pub properties: Option<Seq<(Seq<char>, SchemaV)>>,
    pub required: Option<Seq<Seq<char>>>,
    pub items: Option<Box<SchemaV>>,
    pub all_of: Option<Seq<SchemaV>>,
    pub any_of: Option<Seq<SchemaV>>,
    pub one_of: Option<Seq<SchemaV>>,
}

#[via_fn]
proof fn schema_view_dec(s: Schema) {
    match s {
        Schema::Inline(is) => {
            assert(decreases_to!(s => s->Inline_0));
        },
        _ => {},
    }
}

#[via_fn]
proof fn inline_schema_view_dec(is: InlineSchema) {
    match is.items {
        Some(b) => {
            assert(decreases_to!(is => is.items));
            assert(decreases_to!(is.items => is.items->Some_0));
            assert(decreases_to!(is => *b));
        },
        None => {},
    }
    match is.properties {
        Some(e) => {
            assert(decreases_to!(is => is.properties));
            assert(decreases_to!(is.properties => is.properties->Some_0));
            assert(decreases_to!(e => e.pairs));
            assert(decreases_to!(e.pairs => e.pairs@));
            assert(decreases_to!(is => e.pairs@));
        },
        None => {},
    }
    match is.all_of {
        Some(v) => {
            assert(decreases_to!(is => is.all_of));
            assert(decreases_to!(is.all_of => is.all_of->Some_0));
            assert(decreases_to!(v => v@));
            assert(decreases_to!(is => v@));
        },
        None => {},
    }
    match is.any_of {
        Some(v) => {
            assert(decreases_to!(is => is.any_of));
            assert(decreases_to!(is.any_of => is.any_of->Some_0));
            assert(decreases_to!(v => v@));
            assert(decreases_to!(is => v@));
        },
        None => {},
    }
    match is.one_of {
        Some(v) => {
            assert(decreases_to!(is => is.one_of));
            assert(decreases_to!(is.one_of => is.one_of->Some_0));
            assert(decreases_to!(v => v@));
            assert(decreases_to!(is => v@));
        },
        None => {},
    }
}

#[via_fn]
proof fn schema_view_entries_dec(s: Seq<(String, Schema)>) {
    if s.len() > 0 {
        assert(decreases_to!(s => s[0]));
        assert(decreases_to!(s[0] => s[0].1));
        assert(s.drop_first() == s.subrange(1, s.len() as int));
        assert(decreases_to!(s => s.subrange(1, s.len() as int)));
    }
}

#[via_fn]
proof fn schema_view_list_dec(s: Seq<Schema>) {
    if s.len() > 0 {
        assert(decreases_to!(s => s[0]));
        assert(s.drop_first() == s.subrange(1, s.len() as int));
        assert(decreases_to!(s => s.subrange(1, s.len() as int)));
    }
}

/// The abstraction of a schema.
pub open spec fn schema_view(s: Schema) -> SchemaV
    decreases s,
    via schema_view_dec
{
    match s {
        Schema::Reference { ref_path } => SchemaV::Reference { ref_path: ref_path@ },
        Schema::Inline(is) => SchemaV::Inline(inline_schema_view(is)),
    }
}

/// The abstraction of an inline schema.
pub open spec fn inline_schema_view(is: InlineSchema) -> InlineSchemaV
    decreases is,
    via inline_schema_view_dec
{
    InlineSchemaV {
        schema_type: is.schema_type.deep_view(),
        format: is.format.deep_view(),
        description: is.description.deep_view(),
        example: is.example.deep_view(),
        properties: match is.properties {
            Some(e) => Some(schema_view_entries(e.pairs@)),
            None => None,
        },
        required: is.required.deep_view(),
        items: match is.items {
            Some(b) => Some(Box::new(schema_view(*b))),
            None => None,
        },
        all_of: match is.all_of {
            Some(v) => Some(schema_view_list(v@)),
            None => None,
        },
        any_of: match is.any_of {
            Some(v) => Some(schema_view_list(v@)),
            None => None,
        },
        one_of: match is.one_of {
            Some(v) => Some(schema_view_list(v@)),
            None => None,
        },
    }
}

/// The abstraction of a keyed schema sequence.
pub open spec fn schema_view_entries(s: Seq<(String, Schema)>) -> Seq<(Seq<char>, SchemaV)>
    decreases s,
    via schema_view_entries_dec
{
    if s.len() == 0 {
        Seq::empty()
    } else {
        seq![(s[0].0@, schema_view(s[0].1))] + schema_view_entries(s.drop_first())
    }
}

/// The abstraction of a schema sequence.
pub open spec fn schema_view_list(s: Seq<Schema>) -> Seq<SchemaV>
    decreases s,
    via schema_view_list_dec
{
    if s.len() == 0 {
        Seq::empty()
    } else {
        seq![schema_view(s[0])] + schema_view_list(s.drop_first())
    }
}

/// Element-wise reading of [`schema_view_entries`].
pub proof fn lemma_schema_view_entries(s: Seq<(String, Schema)>)
    ensures
        schema_view_entries(s).len() == s.len(),
        forall|i: int|
            0 <= i < s.len() ==> schema_view_entries(s)[i] == (s[i].0@, schema_view(s[i].1)),
    decreases s.len(),
{
    if s.len() > 0 {
        lemma_schema_view_entries(s.drop_first());
    }
}

/// Element-wise reading of [`schema_view_list`].
pub proof fn lemma_schema_view_list(s: Seq<Schema>)
    ensures
        schema_view_list(s).len() == s.len(),
        forall|i: int| 0 <= i < s.len() ==> schema_view_list(s)[i] == schema_view(s[i]),
    decreases s.len(),
{
    if s.len() > 0 {
        lemma_schema_view_list(s.drop_first());
    }
}

impl View for Schema {
    type V = SchemaV;

    open spec fn view(&self) -> SchemaV {
        schema_view(*self)
    }
}

impl DeepView for Schema {
    type V = SchemaV;

    open spec fn deep_view(&self) -> SchemaV {
        schema_view(*self)
    }
}

impl View for InlineSchema {
    type V = InlineSchemaV;

    open spec fn view(&self) -> InlineSchemaV {
        inline_schema_view(*self)
    }
}

impl DeepView for InlineSchema {
    type V = InlineSchemaV;

    open spec fn deep_view(&self) -> InlineSchemaV {
        inline_schema_view(*self)
    }
}

/// The shape of an empty inline schema, before inference fills it.
pub open spec fn inline_schema_empty_v() -> InlineSchemaV {
    InlineSchemaV {
        schema_type: None,
        format: None,
        description: None,
        example: None,
        properties: None,
        required: None,
        items: None,
        all_of: None,
        any_of: None,
        one_of: None,
    }
}

impl InlineSchema {
    /// An inline schema with nothing known yet.
    pub fn new() -> (r: InlineSchema)
        ensures
            r@ == inline_schema_empty_v(),
    {
        InlineSchema {
            schema_type: None,
            format: None,
            description: None,
            example: None,
            properties: None,
            required: None,
            items: None,
            all_of: None,
            any_of: None,
            one_of: None,
        }
    }
}

/// A parameter: name, location, requiredness, its schema and an optional
/// captured example.
#[derive(Debug, PartialEq)]
pub struct Parameter {
    pub name: String,
    pub location: String,
    pub description: Option<String>,
    pub required: Option<bool>,
    pub schema: Option<Schema>,
    pub example: Option<Json>,
}

/// The mathematical shape of a [`Parameter`].
#[verifier::ext_equal]
pub struct ParameterV {
    pub name: Seq<char>,
    pub location: Seq<char>,
    pub description: Option<Seq<char>>,
    pub required: Option<bool>,
    pub schema: Option<SchemaV>,
    pub example: Option<JsonV>,
}

impl View for Parameter {
    type V = ParameterV;

    open spec fn view(&self) -> ParameterV {
        ParameterV {
            name: self.name@,
            location: self.location@,
            description: self.description.deep_view(),
            required: self.required,
            schema: self.schema.deep_view(),
            example: self.example.deep_view(),
        }
    }
}

impl DeepView for Parameter {
    type V = ParameterV;

    open spec fn deep_view(&self) -> ParameterV {
        self.view()
    }
}

/// A response header: like a parameter, with no name or location of its own.
#[derive(Debug, PartialEq)]
pub struct Header {
    pub description: Option<String>,
    pub required: Option<bool>,
    pub schema: Option<Schema>,
}

/// The mathematical shape of a [`Header`].
#[verifier::ext_equal]
pub struct HeaderV {
    pub description: Option<Seq<char>>,
    pub required: Option<bool>,
    pub schema: Option<SchemaV>,
}

impl View for Header {
    type V = HeaderV;

    open spec fn view(&self) -> HeaderV {
        HeaderV {
            description: self.description.deep_view(),
            required: self.required,
            schema: self.schema.deep_view(),
        }
    }
}

impl DeepView for Header {
    type V = HeaderV;

    open spec fn deep_view(&self) -> HeaderV {
        self.view()
    }
}

/// One media type of a body: a schema and an optional literal example.
#[derive(Debug, PartialEq)]
pub struct MediaType {
    pub schema: Option<Schema>,
    pub example: Option<Json>,
}

/// The mathematical shape of a [`MediaType`].
#[verifier::ext_equal]
pub struct MediaTypeV {
    pub schema: Option<SchemaV>,
    pub example: Option<JsonV>,
}

impl View for MediaType {
    type V = MediaTypeV;

    open spec fn view(&self) -> MediaTypeV {
        MediaTypeV { schema: self.schema.deep_view(), example: self.example.deep_view() }
    }
}

impl DeepView for MediaType {
    type V = MediaTypeV;

    open spec fn deep_view(&self) -> MediaTypeV {
        self.view()
    }
}

/// A request body: a content map from content type to media type.
#[derive(Debug, PartialEq)]
pub struct RequestBody {
    pub description: Option<String>,
    pub required: Option<bool>,
    pub content: Entries<MediaType>,
}

/// The mathematical shape of a [`RequestBody`].
#[verifier::ext_equal]
pub struct RequestBodyV {
    pub description: Option<Seq<char>>,
    pub required: Option<bool>,
    pub content: Seq<(Seq<char>, MediaTypeV)>,
}

impl View for RequestBody {
    type V = RequestBodyV;

    open spec fn view(&self) -> RequestBodyV {
        RequestBodyV {
            description: self.description.deep_view(),
            required: self.required,
            content: self.content@,
        }
    }
}

impl DeepView for RequestBody {
    type V = RequestBodyV;

    open spec fn deep_view(&self) -> RequestBodyV {
        self.view()
    }
}

/// A response: a description, optional content and optional headers.
#[derive(Debug, PartialEq)]
pub struct Response {
    pub description: String,
    pub content: Option<Entries<MediaType>>,
    pub headers: Option<Entries<ObjectOrReference<Header>>>,
}

/// The mathematical shape of a [`Response`].
#[verifier::ext_equal]
pub struct ResponseV {
    pub description: Seq<char>,
    pub content: Option<Seq<(Seq<char>, MediaTypeV)>>,
    pub headers: Option<Seq<(Seq<char>, ObjectOrReferenceV<HeaderV>)>>,
}

impl View for Response {
    type V = ResponseV;

    open spec fn view(&self) -> ResponseV {
        ResponseV {
            description: self.description@,
            content: self.content.deep_view(),
            headers: self.headers.deep_view(),
        }
    }
}

impl DeepView for Response {
    type V = ResponseV;

    open spec fn deep_view(&self) -> ResponseV {
        self.view()
    }
}

/// An operation: identity, metadata, parameters, an optional request body
/// and the response map keyed by status code.
#[derive(Debug, PartialEq)]
pub struct Operation {
    pub operation_id: Option<String>,
    pub summary: Option<String>,
    pub description: Option<String>,
    pub tags: Option<Vec<String>>,
    pub parameters: Option<Vec<ObjectOrReference<Parameter>>>,
    pub request_body: Option<ObjectOrReference<RequestBody>>,
    pub responses: Entries<Response>,
}

/// The mathematical shape of an [`Operation`].
#[verifier::ext_equal]
pub struct OperationV {
    pub operation_id: Option<Seq<char>>,
    pub summary: Option<Seq<char>>,
    pub description: Option<Seq<char>>,
    pub tags: Option<Seq<Seq<char>>>,
    pub parameters: Option<Seq<ObjectOrReferenceV<ParameterV>>>,
    pub request_body: Option<ObjectOrReferenceV<RequestBodyV>>,
    pub responses: Seq<(Seq<char>, ResponseV)>,
}

impl View for Operation {
    type V = OperationV;

    open spec fn view(&self) -> OperationV {
        OperationV {
            operation_id: self.operation_id.deep_view(),
            summary: self.summary.deep_view(),
            description: self.description.deep_view(),
            tags: self.tags.deep_view(),
            parameters: self.parameters.deep_view(),
            request_body: self.request_body.deep_view(),
            responses: self.responses@,
        }
    }
}

impl DeepView for Operation {
    type V = OperationV;

    open spec fn deep_view(&self) -> OperationV {
        self.view()
    }
}

/// The shape of an operation with nothing set.
pub open spec fn operation_empty_v() -> OperationV {
    OperationV {
        operation_id: None,
        summary: None,
        description: None,
        tags: None,
        parameters: None,
        request_body: None,
        responses: Seq::empty(),
    }
}

impl Operation {
    /// An operation with nothing set yet.
    pub fn new() -> (r: Operation)
        ensures
            r@ == operation_empty_v(),
            r.responses.wf(),
    {
        let r = Operation {
            operation_id: None,
            summary: None,
            description: None,
            tags: None,
            parameters: None,
            request_body: None,
            responses: Entries::new(),
        };
        proof {
            assert(r@ =~~= operation_empty_v());
        }
        r
    }
}

/// One path: at most one operation per HTTP method.
#[derive(Debug, PartialEq)]
pub struct PathItem {
    pub get: Option<Operation>,
    pub post: Option<Operation>,
    pub put: Option<Operation>,
    pub delete: Option<Operation>,
    pub patch: Option<Operation>,
}

/// The mathematical shape of a [`PathItem`].
#[verifier::ext_equal]
pub struct PathItemV {
    pub get: Option<OperationV>,
    pub post: Option<OperationV>,
    pub put: Option<OperationV>,
    pub delete: Option<OperationV>,
    pub patch: Option<OperationV>,
}

impl View for PathItem {
    type V = PathItemV;

    open spec fn view(&self) -> PathItemV {
        PathItemV {
            get: self.get.deep_view(),
            post: self.post.deep_view(),
            put: self.put.deep_view(),
            delete: self.delete.deep_view(),
            patch: self.patch.deep_view(),
        }
    }
}

impl DeepView for PathItem {
    type V = PathItemV;

    open spec fn deep_view(&self) -> PathItemV {
        self.view()
    }
}

/// The shape of a path item with no operation yet.
pub open spec fn path_item_empty_v() -> PathItemV {
    PathItemV { get: None, post: None, put: None, delete: None, patch: None }
}

impl PathItem {
    /// A path item with no operation yet.
    pub fn new() -> (r: PathItem)
        ensures
            r@ == path_item_empty_v(),
    {
        PathItem { get: None, post: None, put: None, delete: None, patch: None }
    }
}

/// The component registry: named schemas and named parameters.
#[derive(Debug, PartialEq)]
pub struct Components {
    pub schemas: Option<Entries<ObjectOrReference<Schema>>>,
    pub parameters: Option<Entries<ObjectOrReference<Parameter>>>,
}

/// The mathematical shape of [`Components`].
#[verifier::ext_equal]
pub struct ComponentsV {
    pub schemas: Option<Seq<(Seq<char>, ObjectOrReferenceV<SchemaV>)>>,
    pub parameters: Option<Seq<(Seq<char>, ObjectOrReferenceV<ParameterV>)>>,
}

impl View for Components {
    type V = ComponentsV;

    open spec fn view(&self) -> ComponentsV {
        ComponentsV {
            schemas: self.schemas.deep_view(),
            parameters: self.parameters.deep_view(),
        }
    }
}

impl DeepView for Components {
    type V = ComponentsV;

    open spec fn deep_view(&self) -> ComponentsV {
        self.view()
    }
}

impl Components {
    /// An empty registry.
    pub fn new() -> (r: Components)
        ensures
            r@ == (ComponentsV { schemas: None, parameters: None }),
    {
        Components { schemas: None, parameters: None }
    }
}

/// The specification's metadata block.
#[derive(Debug, PartialEq)]
pub struct Info {
    pub title: String,
    pub version: String,
    pub description: Option<String>,
}

/// The mathematical shape of [`Info`].
#[verifier::ext_equal]
pub struct InfoV {
    pub title: Seq<char>,
    pub version: Seq<char>,
    pub description: Option<Seq<char>>,
}

impl View for Info {
    type V = InfoV;

    open spec fn view(&self) -> InfoV {
        InfoV {
            title: self.title@,
            version: self.version@,
            description: self.description.deep_view(),
        }
    }
}

impl DeepView for Info {
    type V = InfoV;

    open spec fn deep_view(&self) -> InfoV {
        self.view()
    }
}

/// A complete specification: version tag, metadata, paths, components.
#[derive(Debug, PartialEq)]
pub struct Openapi {
    pub openapi: String,
    pub info: Info,
    pub paths: Entries<PathItem>,
    pub components: Option<Components>,
}

/// The mathematical shape of an [`Openapi`].
#[verifier::ext_equal]
pub struct OpenapiV {
    pub openapi: Seq<char>,
    pub info: InfoV,
    pub paths: Seq<(Seq<char>, PathItemV)>,
    pub components: Option<ComponentsV>,
}

impl View for Openapi {
    type V = OpenapiV;

    open spec fn view(&self) -> OpenapiV {
        OpenapiV {
            openapi: self.openapi@,
            info: self.info@,
            paths: self.paths@,
            components: self.components.deep_view(),
        }
    }
}

impl DeepView for Openapi {
    type V = OpenapiV;

    open spec fn deep_view(&self) -> OpenapiV {
        self.view()
    }
}

/// The five HTTP methods a route may name.
#[derive(Debug, Clone, Copy, PartialEq, Eq, Structural)]
pub enum MethodKind {
    Get,
    Post,
    Put,
    Delete,
    Patch,
}

/// The lower-case name of each method.
pub open spec fn method_name_v(m: MethodKind) -> Seq<char> {
    match m {
        MethodKind::Get => "get"@,
        MethodKind::Post => "post"@,
        MethodKind::Put => "put"@,
        MethodKind::Delete => "delete"@,
        MethodKind::Patch => "patch"@,
    }
}

/// The path item with one method slot set to the operation.
pub open spec fn path_item_set_v(p: PathItemV, m: MethodKind, op: OperationV) -> PathItemV {
    match m {
        MethodKind::Get => PathItemV { get: Some(op), ..p },
        MethodKind::Post => PathItemV { post: Some(op), ..p },
        MethodKind::Put => PathItemV { put: Some(op), ..p },
        MethodKind::Delete => PathItemV { delete: Some(op), ..p },
        MethodKind::Patch => PathItemV { patch: Some(op), ..p },
    }
}

impl MethodKind {
    /// The method's lower-case name.
    pub fn name(&self) -> (r: &'static str)
        ensures
            r@ == method_name_v(*self),
    {
        match self {
            MethodKind::Get => "get",
            MethodKind::Post => "post",
            MethodKind::Put => "put",
            MethodKind::Delete => "delete",
            MethodKind::Patch => "patch",
        }
    }

    /// Stores the operation in this method's slot of the path item; an
    /// earlier occupant of the same slot is replaced.
    pub fn add_operation(&self, path_item: &mut PathItem, operation: Operation)
        ensures
            final(path_item)@ == path_item_set_v(old(path_item)@, *self, operation@),
    {
        match self {
            MethodKind::Get => path_item.get = Some(operation),
            MethodKind::Post => path_item.post = Some(operation),
            MethodKind::Put => path_item.put = Some(operation),
            MethodKind::Delete => path_item.delete = Some(operation),
            MethodKind::Patch => path_item.patch = Some(operation),
        }
        proof {
            assert(path_item@ =~~= path_item_set_v(old(path_item)@, *self, operation@));
        }
    }
}

/// The two component stores a pointer can aim at.
#[derive(Debug, Clone, Copy, PartialEq, Eq, Structural)]
pub enum ComponentKind {
    Schema,
    Parameter,
}

/// The canonical pointer string for a named component of the given kind.
pub open spec fn compute_ref_v(kind: ComponentKind, name: Seq<char>) -> Seq<char> {
    match kind {
        ComponentKind::Schema => "#/components/schemas/"@ + name,
        ComponentKind::Parameter => "#/components/parameters/"@ + name,
    }
}

impl ComponentKind {
    /// The canonical pointer string for a component of this kind.
    pub fn compute_ref(&self, name: &str) -> (r: String)
        ensures
            r@ == compute_ref_v(*self, name@),
    {
        let mut s = String::new();
        match self {
            ComponentKind::Schema => s.append("#/components/schemas/"),
            ComponentKind::Parameter => s.append("#/components/parameters/"),
        }
        s.append(name);
        proof {
            assert(s@ =~= compute_ref_v(*self, name@));
        }
        s
    }
}

/// Keyed schema views read the same as the deep view of the pair vector.
pub proof fn lemma_schema_entries_deep(pairs: Vec<(String, Schema)>)
    ensures
        schema_view_entries(pairs@) == pairs.deep_view(),
{
    lemma_schema_view_entries(pairs@);
    assert forall|i: int| 0 <= i < pairs@.len() implies schema_view_entries(pairs@)[i]
        == pairs.deep_view()[i] by {
        assert(pairs.deep_view()[i] == (pairs@[i].0@, schema_view(pairs@[i].1)));
    }
    assert(schema_view_entries(pairs@) =~~= pairs.deep_view());
}

/// Schema list views read the same as the deep view of the vector.
pub proof fn lemma_schema_list_deep(v: Vec<Schema>)
    ensures
        schema_view_list(v@) == v.deep_view(),
{
    lemma_schema_view_list(v@);
    assert forall|i: int| 0 <= i < v@.len() implies schema_view_list(v@)[i] == v.deep_view()[i] by {
        assert(v.deep_view()[i] == schema_view(v@[i]));
    }
    assert(schema_view_list(v@) =~~= v.deep_view());
}

} // verus!
