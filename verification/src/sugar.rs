//! Convenience constructors and fluent builders for assembling documents
//! programmatically.

use vstd::prelude::*;

use crate::document::{Components, ComponentsV, OpenAPIV3, OpenAPIV3V};
use crate::info::{Contact, ContactV, Info, InfoV, License, LicenseV};
use crate::media::MediaType;
use crate::meta::{Server, ServerV, ServerVariable, ServerVariableV, Tag, TagV, ParameterIn};
use crate::params::{Parameter, ParameterV, RequestBody, Response, ResponseV};
use crate::paths::{Operation, OperationV, PathItem, PathItemV, Responses, ResponsesV};
use crate::refs::{Referenceable, ReferenceableV};
use crate::schema::{Schema, SchemaV};
use crate::smap::SortedMap;
use crate::value::Value;

verus! {

impl Contact {
    /// An empty contact block.
    pub fn new() -> (r: Self)
        ensures
            r.deep_view() == (ContactV {
                name: None::<Seq<char>>,
                url: None::<Seq<char>>,
                email: None::<Seq<char>>,
            }),
    {
        Contact {
            name: None,
            url: None,
            email: None,
        }
    }

    /// Set the contact name.
    pub fn with_name(self, name: &str) -> (r: Self)
        ensures
            r.deep_view() == (ContactV { name: Some(name@), ..self.deep_view() }),
    {
        Contact { name: Some(name.to_owned()), ..self }
    }

    /// Set the contact URL.
    pub fn with_url(self, url: &str) -> (r: Self)
        ensures
            r.deep_view() == (ContactV { url: Some(url@), ..self.deep_view() }),
    {
        Contact { url: Some(url.to_owned()), ..self }
    }

    /// Set the contact email address.
    pub fn with_email(self, email: &str) -> (r: Self)
        ensures
            r.deep_view() == (ContactV { email: Some(email@), ..self.deep_view() }),
    {
        Contact { email: Some(email.to_owned()), ..self }
    }

}

impl License {
    /// A license with the given name and no URL.
    pub fn new(name: &str) -> (r: Self)
        ensures
            r.deep_view() == (LicenseV {
                name: name@,
                url: None::<Seq<char>>,
            }),
    {
        License {
            name: name.to_owned(),
            url: None,
        }
    }

    /// Set the license URL.
    pub fn with_url(self, url: &str) -> (r: Self)
        ensures
            r.deep_view() == (LicenseV { url: Some(url@), ..self.deep_view() }),
    {
        License { url: Some(url.to_owned()), ..self }
    }

}

impl Info {
    /// Metadata with the two required fields; everything else absent.
    pub fn new(title: &str, version: &str) -> (r: Self)
        ensures
            r.deep_view() == (InfoV {
                title: title@,
                description: None::<Seq<char>>,
                terms_of_service: None::<Seq<char>>,
                contact: None::<ContactV>,
                license: None::<LicenseV>,
                version: version@,
            }),
    {
        Info {
            title: title.to_owned(),
            description: None,
            terms_of_service: None,
            contact: None,
            license: None,
            version: version.to_owned(),
        }
    }

    /// Set the description.
    pub fn with_description(self, description: &str) -> (r: Self)
        ensures
            r.deep_view() == (InfoV { description: Some(description@), ..self.deep_view() }),
    {
        Info { description: Some(description.to_owned()), ..self }
    }

    /// Set the contact block.
    pub fn with_contact(self, contact: Contact) -> (r: Self)
        ensures
            r.deep_view() == (InfoV { contact: Some(contact.deep_view()), ..self.deep_view() }),
    {
        Info { contact: Some(contact), ..self }
    }

    /// Set the license block.
    pub fn with_license(self, license: License) -> (r: Self)
        ensures
            r.deep_view() == (InfoV { license: Some(license.deep_view()), ..self.deep_view() }),
    {
        Info { license: Some(license), ..self }
    }

}

impl ServerVariable {
    /// A variable with the given default value.
    pub fn new(default: &str) -> (r: Self)
        ensures
            r.deep_view() == (ServerVariableV {
                _enum: None::<Seq<Seq<char>>>,
                default: default@,
                description: None::<Seq<char>>,
            }),
    {
        ServerVariable {
            _enum: None,
            default: default.to_owned(),
            description: None,
        }
    }

    /// Limit the substitution options to the given set.
    pub fn with_enum(self, enum_values: Vec<String>) -> (r: Self)
        ensures
            r.deep_view() == (ServerVariableV { _enum: Some(enum_values.deep_view()), ..self.deep_view() }),
    {
        ServerVariable { _enum: Some(enum_values), ..self }
    }

    /// Set the description.
    pub fn with_description(self, description: &str) -> (r: Self)
        ensures
            r.deep_view() == (ServerVariableV { description: Some(description@), ..self.deep_view() }),
    {
        ServerVariable { description: Some(description.to_owned()), ..self }
    }

}

impl Server {
    /// A server with the given URL.
    pub fn new(url: &str) -> (r: Self)
        ensures
            r.deep_view() == (ServerV {
                url: url@,
                description: None::<Seq<char>>,
                variables: None::<Seq<(Seq<char>, ServerVariableV)>>,
            }),
    {
        Server {
            url: url.to_owned(),
            description: None,
            variables: None,
        }
    }

    /// Set the description.
    pub fn with_description(self, description: &str) -> (r: Self)
        ensures
            r.deep_view() == (ServerV { description: Some(description@), ..self.deep_view() }),
    {
        Server { description: Some(description.to_owned()), ..self }
    }

    /// Set the URL template variables.
    pub fn with_variables(self, variables: SortedMap<ServerVariable>) -> (r: Self)
        ensures
            r.deep_view() == (ServerV { variables: Some(variables.deep_view()), ..self.deep_view() }),
    {
        Server { variables: Some(variables), ..self }
    }

}

impl Tag {
    /// A tag with the given name and optional description.
    pub fn new(name: &str, description: Option<&str>) -> (r: Self)
        ensures
            r.deep_view() == (TagV {
                name: name@,
                description: match description {
                    Some(d) => Some(d@),
                    None => None,
                },
                external_docs: None,
            }),
    {
        Tag {
            name: name.to_owned(),
            description: match description {
                Some(d) => Some(d.to_owned()),
                None => None,
            },
            external_docs: None,
        }
    }

    /// A tag with only a name.
    pub fn simple(name: &str) -> (r: Self)
        ensures
            r.deep_view() == (TagV { name: name@, description: None, external_docs: None }),
    {
        Tag { name: name.to_owned(), description: None, external_docs: None }
    }

    /// A tag with a name and a description.
    pub fn with_description(name: &str, description: &str) -> (r: Self)
        ensures
            r.deep_view() == (TagV {
                name: name@,
                description: Some(description@),
                external_docs: None,
            }),
    {
        Tag {
            name: name.to_owned(),
            description: Some(description.to_owned()),
            external_docs: None,
        }
    }
}

impl Schema {
    /// An empty schema.
    pub fn new() -> (r: Self)
        ensures
            r.deep_view() == (SchemaV {
                _type: None::<Seq<char>>,
                format: None::<Seq<char>>,
                nullable: None::<bool>,
                description: None::<Seq<char>>,
                extras: crate::value::view_entries(Seq::empty()),
            }),
    {
        Schema {
            _type: None,
            format: None,
            nullable: None,
            description: None,
            extras: Vec::new(),
        }
    }

    /// Set the type keyword.
    pub fn with_type(self, schema_type: &str) -> (r: Self)
        ensures
            r.deep_view() == (SchemaV { _type: Some(schema_type@), ..self.deep_view() }),
    {
        Schema { _type: Some(schema_type.to_owned()), ..self }
    }

    /// Set the format keyword.
    pub fn with_format(self, format: &str) -> (r: Self)
        ensures
            r.deep_view() == (SchemaV { format: Some(format@), ..self.deep_view() }),
    {
        Schema { format: Some(format.to_owned()), ..self }
    }

    /// Set the description.
    pub fn with_description(self, description: &str) -> (r: Self)
        ensures
            r.deep_view() == (SchemaV { description: Some(description@), ..self.deep_view() }),
    {
        Schema { description: Some(description.to_owned()), ..self }
    }

    /// An inline schema of type `string`.
    pub fn string() -> (r: Self)
        ensures
            r.deep_view() == (SchemaV {
                _type: Some("string"@),
                format: None,
                nullable: None,
                description: None,
                extras: crate::value::view_entries(Seq::empty()),
            }),
    {
        Schema::new().with_type("string")
    }

    /// An inline schema of type `integer`.
    pub fn integer() -> (r: Self)
        ensures
            r.deep_view() == (SchemaV {
                _type: Some("integer"@),
                format: None,
                nullable: None,
                description: None,
                extras: crate::value::view_entries(Seq::empty()),
            }),
    {
        Schema::new().with_type("integer")
    }

    /// An inline schema of type `number`.
    pub fn number() -> (r: Self)
        ensures
            r.deep_view() == (SchemaV {
                _type: Some("number"@),
                format: None,
                nullable: None,
                description: None,
                extras: crate::value::view_entries(Seq::empty()),
            }),
    {
        Schema::new().with_type("number")
    }

    /// An inline schema of type `boolean`.
    pub fn boolean() -> (r: Self)
        ensures
            r.deep_view() == (SchemaV {
                _type: Some("boolean"@),
                format: None,
                nullable: None,
                description: None,
                extras: crate::value::view_entries(Seq::empty()),
            }),
    {
        Schema::new().with_type("boolean")
    }

    /// An inline schema of type `array`.
    pub fn array() -> (r: Self)
        ensures
            r.deep_view() == (SchemaV {
                _type: Some("array"@),
                format: None,
                nullable: None,
                description: None,
                extras: crate::value::view_entries(Seq::empty()),
            }),
    {
        Schema::new().with_type("array")
    }

    /// An inline schema of type `object`.
    pub fn object() -> (r: Self)
        ensures
            r.deep_view() == (SchemaV {
                _type: Some("object"@),
                format: None,
                nullable: None,
                description: None,
                extras: crate::value::view_entries(Seq::empty()),
            }),
    {
        Schema::new().with_type("object")
    }

}


impl Response {
    /// A response carrying only its description.
    pub fn new(description: &str) -> (r: Self)
        ensures
            r.deep_view() == (ResponseV {
                description: description@,
                headers: None,
                content: None,
                links: None,
            }),
    {
        Response {
            description: description.to_owned(),
            headers: None,
            content: None,
            links: None,
        }
    }

    /// Set the content map.
    pub fn with_content(self, content: SortedMap<MediaType>) -> (r: Self)
        ensures
            r.deep_view() == (ResponseV { content: Some(content.deep_view()), ..self.deep_view() }),
    {
        Response { content: Some(content), ..self }
    }

    /// Set the header map.
    pub fn with_headers(
        self,
        headers: SortedMap<Referenceable<crate::media::Header>>,
    ) -> (r: Self)
        ensures
            r.deep_view() == (ResponseV { headers: Some(headers.deep_view()), ..self.deep_view() }),
    {
        Response { headers: Some(headers), ..self }
    }
}

impl Parameter {
    /// A parameter with the given name and location; everything else
    /// absent.
    pub fn new(name: &str, location: ParameterIn) -> (r: Self)
        ensures
            r.deep_view() == (ParameterV {
                name: name@,
                _in: location,
                description: None,
                required: None,
                deprecated: None,
                allow_empty_value: None,
                style: None,
                explode: None,
                allow_reserved: None,
                schema: None,
                example: None,
                examples: None,
                content: None,
            }),
    {
        Parameter {
            name: name.to_owned(),
            _in: location,
            description: None,
            required: None,
            deprecated: None,
            allow_empty_value: None,
            style: None,
            explode: None,
            allow_reserved: None,
            schema: None,
            example: None,
            examples: None,
            content: None,
        }
    }

    /// Set the description.
    pub fn with_description(self, description: &str) -> (r: Self)
        ensures
            r.deep_view() == (ParameterV {
                description: Some(description@),
                ..self.deep_view()
            }),
    {
        Parameter { description: Some(description.to_owned()), ..self }
    }

    /// Mark the parameter required or not.
    pub fn with_required(self, required: bool) -> (r: Self)
        ensures
            r.deep_view() == (ParameterV { required: Some(required), ..self.deep_view() }),
    {
        Parameter { required: Some(required), ..self }
    }

    /// Set the schema.
    pub fn with_schema(self, schema: Referenceable<Schema>) -> (r: Self)
        ensures
            r.deep_view() == (ParameterV { schema: Some(schema.deep_view()), ..self.deep_view() }),
    {
        Parameter { schema: Some(schema), ..self }
    }
}

impl RequestBody {
    /// A request body with the given content map.
    pub fn new(content: SortedMap<MediaType>) -> (r: Self)
        ensures
            r.deep_view() == (crate::params::RequestBodyV {
                description: None,
                required: None,
                content: content.deep_view(),
            }),
    {
        RequestBody { description: None, required: None, content }
    }

    /// Set the description.
    pub fn with_description(self, description: &str) -> (r: Self)
        ensures
            r.deep_view() == (crate::params::RequestBodyV {
                description: Some(description@),
                ..self.deep_view()
            }),
    {
        RequestBody { description: Some(description.to_owned()), ..self }
    }

    /// Mark the body required or not.
    pub fn with_required(self, required: bool) -> (r: Self)
        ensures
            r.deep_view() == (crate::params::RequestBodyV {
                required: Some(required),
                ..self.deep_view()
            }),
    {
        RequestBody { required: Some(required), ..self }
    }
}

impl MediaType {
    /// An empty media type description.
    pub fn new() -> (r: Self)
        ensures
            r.deep_view() == (crate::media::MediaTypeV {
                schema: None,
                example: None,
                examples: None,
                encoding: None,
            }),
    {
        MediaType { schema: None, example: None, examples: None, encoding: None }
    }

    /// Set the schema.
    pub fn with_schema(self, schema: Referenceable<Schema>) -> (r: Self)
        ensures
            r.deep_view() == (crate::media::MediaTypeV {
                schema: Some(schema.deep_view()),
                ..self.deep_view()
            }),
    {
        MediaType { schema: Some(schema), ..self }
    }

    /// Set the example value.
    pub fn with_example(self, example: Value) -> (r: Self)
        ensures
            r.deep_view() == (crate::media::MediaTypeV {
                example: Some(example.deep_view()),
                ..self.deep_view()
            }),
    {
        MediaType { example: Some(example), ..self }
    }
}

impl Responses {
    /// An empty response container.
    pub fn new() -> (r: Self)
        ensures
            r.deep_view() == (ResponsesV {
                default: None,
                data: Seq::<(Seq<char>, ReferenceableV<ResponseV>)>::empty(),
            }),
    {
        Responses { default: None, data: SortedMap::new() }
    }

    /// Add a response under the given status code.
    pub fn with_status(self, status: &str, response: Referenceable<Response>) -> (r: Self)
        ensures
            r.deep_view() == (ResponsesV {
                data: crate::smap::sorted_insert(
                    self.deep_view().data,
                    status@,
                    response.deep_view(),
                ),
                ..self.deep_view()
            }),
    {
        let mut data = self.data;
        data.insert(status.to_owned(), response);
        Responses { data, ..self }
    }

    /// Set the default response.
    pub fn with_default(self, response: Referenceable<Response>) -> (r: Self)
        ensures
            r.deep_view() == (ResponsesV {
                default: Some(response.deep_view()),
                ..self.deep_view()
            }),
    {
        Responses { default: Some(response), ..self }
    }
}

impl Operation {
    /// An operation with the given responses; everything else absent.
    pub fn new(responses: Responses) -> (r: Self)
        ensures
            r.deep_view() == (OperationV {
                tags: None,
                summary: None,
                description: None,
                external_docs: None,
                operation_id: None,
                parameters: None,
                request_body: None,
                responses: responses.deep_view(),
                callbacks: None,
                deprecated: None,
                security: None,
                servers: None,
            }),
    {
        Operation {
            tags: None,
            summary: None,
            description: None,
            external_docs: None,
            operation_id: None,
            parameters: None,
            request_body: None,
            responses,
            callbacks: None,
            deprecated: None,
            security: None,
            servers: None,
        }
    }

    /// Set the summary.
    pub fn with_summary(self, summary: &str) -> (r: Self)
        ensures
            r.deep_view() == (OperationV { summary: Some(summary@), ..self.deep_view() }),
    {
        Operation { summary: Some(summary.to_owned()), ..self }
    }

    /// Set the description.
    pub fn with_description(self, description: &str) -> (r: Self)
        ensures
            r.deep_view() == (OperationV { description: Some(description@), ..self.deep_view() }),
    {
        Operation { description: Some(description.to_owned()), ..self }
    }

    /// Set the operation id.
    pub fn with_operation_id(self, operation_id: &str) -> (r: Self)
        ensures
            r.deep_view() == (OperationV {
                operation_id: Some(operation_id@),
                ..self.deep_view()
            }),
    {
        Operation { operation_id: Some(operation_id.to_owned()), ..self }
    }

    /// Set the tag list.
    pub fn with_tags(self, tags: Vec<String>) -> (r: Self)
        ensures
            r.deep_view() == (OperationV { tags: Some(tags.deep_view()), ..self.deep_view() }),
    {
        Operation { tags: Some(tags), ..self }
    }

    /// Set the parameter list.
    pub fn with_parameters(self, parameters: Vec<Referenceable<Parameter>>) -> (r: Self)
        ensures
            r.deep_view() == (OperationV {
                parameters: Some(parameters.deep_view()),
                ..self.deep_view()
            }),
    {
        Operation { parameters: Some(parameters), ..self }
    }

    /// Set the request body.
    pub fn with_request_body(self, request_body: Referenceable<RequestBody>) -> (r: Self)
        ensures
            r.deep_view() == (OperationV {
                request_body: Some(request_body.deep_view()),
                ..self.deep_view()
            }),
    {
        Operation { request_body: Some(request_body), ..self }
    }
}

impl PathItem {
    /// An empty path item.
    pub fn new() -> (r: Self)
        ensures
            r.deep_view() == (PathItemV {
                _ref: None,
                summary: None,
                description: None,
                get: None,
                put: None,
                post: None,
                delete: None,
                options: None,
                head: None,
                patch: None,
                trace: None,
                servers: None,
                parameters: None,
            }),
    {
        PathItem {
            _ref: None,
            summary: None,
            description: None,
            get: None,
            put: None,
            post: None,
            delete: None,
            options: None,
            head: None,
            patch: None,
            trace: None,
            servers: None,
            parameters: None,
        }
    }

    /// Set the GET operation.
    pub fn with_get(self, operation: Operation) -> (r: Self)
        ensures
            r.deep_view() == (PathItemV { get: Some(operation.deep_view()), ..self.deep_view() }),
    {
        PathItem { get: Some(operation), ..self }
    }

    /// Set the POST operation.
    pub fn with_post(self, operation: Operation) -> (r: Self)
        ensures
            r.deep_view() == (PathItemV { post: Some(operation.deep_view()), ..self.deep_view() }),
    {
        PathItem { post: Some(operation), ..self }
    }

    /// Set the PUT operation.
    pub fn with_put(self, operation: Operation) -> (r: Self)
        ensures
            r.deep_view() == (PathItemV { put: Some(operation.deep_view()), ..self.deep_view() }),
    {
        PathItem { put: Some(operation), ..self }
    }

    /// Set the DELETE operation.
    pub fn with_delete(self, operation: Operation) -> (r: Self)
        ensures
            r.deep_view() == (PathItemV {
                delete: Some(operation.deep_view()),
                ..self.deep_view()
            }),
    {
        PathItem { delete: Some(operation), ..self }
    }

    /// Set the PATCH operation.
    pub fn with_patch(self, operation: Operation) -> (r: Self)
        ensures
            r.deep_view() == (PathItemV { patch: Some(operation.deep_view()), ..self.deep_view() }),
    {
        PathItem { patch: Some(operation), ..self }
    }
}

impl Components {
    /// An empty registry.
    pub fn new() -> (r: Self)
        ensures
            r.deep_view() == (ComponentsV {
                schemas: None,
                responses: None,
                parameters: None,
                examples: None,
                request_bodies: None,
                headers: None,
                security_schemes: None,
                links: None,
                callbacks: None,
            }),
    {
        Components {
            schemas: None,
            responses: None,
            parameters: None,
            examples: None,
            request_bodies: None,
            headers: None,
            security_schemes: None,
            links: None,
            callbacks: None,
        }
    }

    /// Set the schema bucket.
    pub fn with_schemas(self, schemas: SortedMap<Referenceable<Schema>>) -> (r: Self)
        ensures
            r.deep_view() == (ComponentsV {
                schemas: Some(schemas.deep_view()),
                ..self.deep_view()
            }),
    {
        Components { schemas: Some(schemas), ..self }
    }

    /// Set the response bucket.
    pub fn with_responses(self, responses: SortedMap<Referenceable<Response>>) -> (r: Self)
        ensures
            r.deep_view() == (ComponentsV {
                responses: Some(responses.deep_view()),
                ..self.deep_view()
            }),
    {
        Components { responses: Some(responses), ..self }
    }

    /// Set the parameter bucket.
    pub fn with_parameters(self, parameters: SortedMap<Referenceable<Parameter>>) -> (r: Self)
        ensures
            r.deep_view() == (ComponentsV {
                parameters: Some(parameters.deep_view()),
                ..self.deep_view()
            }),
    {
        Components { parameters: Some(parameters), ..self }
    }
}

impl OpenAPIV3 {
    /// A fresh document for the given metadata, with no paths.
    pub fn new(info: Info) -> (r: Self)
        ensures
            r.deep_view() == (OpenAPIV3V {
                openapi: "3.0.0"@,
                info: info.deep_view(),
                servers: None,
                paths: Seq::<(Seq<char>, PathItemV)>::empty(),
                components: None,
                security: None,
                tags: None,
                external_docs: None,
                extras: Seq::<(Seq<char>, crate::value::SpecVal)>::empty(),
            }),
    {
        let r = OpenAPIV3 {
            openapi: "3.0.0".to_owned(),
            info,
            servers: None,
            paths: SortedMap::new(),
            components: None,
            security: None,
            tags: None,
            external_docs: None,
            extras: Vec::new(),
        };
        proof {
            assert(crate::value::view_entries(Seq::<(String, Value)>::empty())
                =~= Seq::<(Seq<char>, crate::value::SpecVal)>::empty());
        }
        r
    }

    /// Set the description inside the metadata block.
    pub fn with_description(self, description: &str) -> (r: Self)
        ensures
            r.deep_view() == (OpenAPIV3V {
                info: InfoV { description: Some(description@), ..self.deep_view().info },
                ..self.deep_view()
            }),
    {
        OpenAPIV3 {
            info: Info { description: Some(description.to_owned()), ..self.info },
            ..self
        }
    }

    /// Replace the path map.
    pub fn with_paths(self, paths: SortedMap<PathItem>) -> (r: Self)
        ensures
            r.deep_view() == (OpenAPIV3V { paths: paths.deep_view(), ..self.deep_view() }),
    {
        OpenAPIV3 { paths, ..self }
    }

    /// Set the registry.
    pub fn with_components(self, components: Components) -> (r: Self)
        ensures
            r.deep_view() == (OpenAPIV3V {
                components: Some(components.deep_view()),
                ..self.deep_view()
            }),
    {
        OpenAPIV3 { components: Some(components), ..self }
    }

    /// Set the server list.
    pub fn with_servers(self, servers: Vec<Server>) -> (r: Self)
        ensures
            r.deep_view() == (OpenAPIV3V { servers: Some(servers.deep_view()), ..self.deep_view() }),
    {
        OpenAPIV3 { servers: Some(servers), ..self }
    }

    /// Add one path.
    pub fn add_path(self, path: &str, path_item: PathItem) -> (r: Self)
        ensures
            r.deep_view() == (OpenAPIV3V {
                paths: crate::smap::sorted_insert(
                    self.deep_view().paths,
                    path@,
                    path_item.deep_view(),
                ),
                ..self.deep_view()
            }),
    {
        let mut paths = self.paths;
        paths.insert(path.to_owned(), path_item);
        OpenAPIV3 { paths, ..self }
    }

    /// Add one server.
    pub fn add_server(self, server: Server) -> (r: Self)
        ensures
            r.deep_view() == (OpenAPIV3V {
                servers: Some(
                    match self.deep_view().servers {
                        Some(list) => list.push(server.deep_view()),
                        None => seq![server.deep_view()],
                    },
                ),
                ..self.deep_view()
            }),
    {
        let mut list = match self.servers {
            Some(l) => l,
            None => Vec::new(),
        };
        let ghost pre = list.deep_view();
        list.push(server);
        proof {
            assert(list.deep_view() =~= pre.push(server.deep_view()));
            if self.servers is None {
                assert(pre =~= Seq::<ServerV>::empty());
                assert(pre.push(server.deep_view()) =~= seq![server.deep_view()]);
            }
        }
        OpenAPIV3 { servers: Some(list), ..self }
    }

    /// Add one tag.
    pub fn add_tag(self, tag: Tag) -> (r: Self)
        ensures
            r.deep_view() == (OpenAPIV3V {
                tags: Some(
                    match self.deep_view().tags {
                        Some(list) => list.push(tag.deep_view()),
                        None => seq![tag.deep_view()],
                    },
                ),
                ..self.deep_view()
            }),
    {
        let mut list = match self.tags {
            Some(l) => l,
            None => Vec::new(),
        };
        let ghost pre = list.deep_view();
        list.push(tag);
        proof {
            assert(list.deep_view() =~= pre.push(tag.deep_view()));
            if self.tags is None {
                assert(pre =~= Seq::<TagV>::empty());
                assert(pre.push(tag.deep_view()) =~= seq![tag.deep_view()]);
            }
        }
        OpenAPIV3 { tags: Some(list), ..self }
    }
}

impl Referenceable<Schema> {
    /// A reference to a schema component.
    pub fn schema_ref(name: &str) -> (r: Self)
        ensures
            r.deep_view() == ReferenceableV::<SchemaV>::Reference(
                "#/components/"@ + "schemas"@ + "/"@ + name@,
            ),
    {
        Self::component_ref("schemas", name)
    }

    /// An inline string schema.
    pub fn string_schema() -> (r: Self)
        ensures
            r.deep_view() == ReferenceableV::Data(
                SchemaV {
                    _type: Some("string"@),
                    format: None,
                    nullable: None,
                    description: None,
                    extras: crate::value::view_entries(Seq::empty()),
                },
            ),
    {
        Self::data(Schema::string())
    }

    /// An inline integer schema.
    pub fn integer_schema() -> (r: Self)
        ensures
            r.deep_view() == ReferenceableV::Data(
                SchemaV {
                    _type: Some("integer"@),
                    format: None,
                    nullable: None,
                    description: None,
                    extras: crate::value::view_entries(Seq::empty()),
                },
            ),
    {
        Self::data(Schema::integer())
    }

    /// An inline number schema.
    pub fn number_schema() -> (r: Self)
        ensures
            r.deep_view() == ReferenceableV::Data(
                SchemaV {
                    _type: Some("number"@),
                    format: None,
                    nullable: None,
                    description: None,
                    extras: crate::value::view_entries(Seq::empty()),
                },
            ),
    {
        Self::data(Schema::number())
    }

    /// An inline boolean schema.
    pub fn boolean_schema() -> (r: Self)
        ensures
            r.deep_view() == ReferenceableV::Data(
                SchemaV {
                    _type: Some("boolean"@),
                    format: None,
                    nullable: None,
                    description: None,
                    extras: crate::value::view_entries(Seq::empty()),
                },
            ),
    {
        Self::data(Schema::boolean())
    }

    /// An inline array schema.
    pub fn array_schema() -> (r: Self)
        ensures
            r.deep_view() == ReferenceableV::Data(
                SchemaV {
                    _type: Some("array"@),
                    format: None,
                    nullable: None,
                    description: None,
                    extras: crate::value::view_entries(Seq::empty()),
                },
            ),
    {
        Self::data(Schema::array())
    }

    /// An inline object schema.
    pub fn object_schema() -> (r: Self)
        ensures
            r.deep_view() == ReferenceableV::Data(
                SchemaV {
                    _type: Some("object"@),
                    format: None,
                    nullable: None,
                    description: None,
                    extras: crate::value::view_entries(Seq::empty()),
                },
            ),
    {
        Self::data(Schema::object())
    }
}

impl Referenceable<Response> {
    /// A reference to a response component.
    pub fn response_ref(name: &str) -> (r: Self)
        ensures
            r.deep_view() == ReferenceableV::<ResponseV>::Reference(
                "#/components/"@ + "responses"@ + "/"@ + name@,
            ),
    {
        Self::component_ref("responses", name)
    }

    /// A plain success response.
    pub fn ok(description: &str) -> (r: Self)
        ensures
            r.deep_view() == ReferenceableV::Data(
                ResponseV { description: description@, headers: None, content: None, links: None },
            ),
    {
        Self::data(Response::new(description))
    }

    /// A plain error response.
    pub fn error(description: &str) -> (r: Self)
        ensures
            r.deep_view() == ReferenceableV::Data(
                ResponseV { description: description@, headers: None, content: None, links: None },
            ),
    {
        Self::data(Response::new(description))
    }

    /// Add content if this node holds data; a pointer is unchanged.
    pub fn with_content(self, content: SortedMap<MediaType>) -> (r: Self)
        ensures
            match self.deep_view() {
                ReferenceableV::Data(resp) => r.deep_view() == ReferenceableV::Data(
                    ResponseV { content: Some(content.deep_view()), ..resp },
                ),
                ReferenceableV::Reference(s) => r.deep_view() == self.deep_view(),
            },
    {
        match self {
            Referenceable::Data(response) => Referenceable::Data(response.with_content(content)),
            Referenceable::Reference(rf) => Referenceable::Reference(rf),
        }
    }

    /// Add headers if this node holds data; a pointer is unchanged.
    pub fn with_headers(
        self,
        headers: SortedMap<Referenceable<crate::media::Header>>,
    ) -> (r: Self)
        ensures
            match self.deep_view() {
                ReferenceableV::Data(resp) => r.deep_view() == ReferenceableV::Data(
                    ResponseV { headers: Some(headers.deep_view()), ..resp },
                ),
                ReferenceableV::Reference(s) => r.deep_view() == self.deep_view(),
            },
    {
        match self {
            Referenceable::Data(response) => Referenceable::Data(response.with_headers(headers)),
            Referenceable::Reference(rf) => Referenceable::Reference(rf),
        }
    }
}

impl Referenceable<Parameter> {
    /// A reference to a parameter component.
    pub fn parameter_ref(name: &str) -> (r: Self)
        ensures
            r.deep_view() == ReferenceableV::<ParameterV>::Reference(
                "#/components/"@ + "parameters"@ + "/"@ + name@,
            ),
    {
        Self::component_ref("parameters", name)
    }

    /// An inline query parameter.
    pub fn query_param(name: &str) -> (r: Self)
        ensures
            r.deep_view() == ReferenceableV::Data(
                ParameterV {
                    name: name@,
                    _in: ParameterIn::Query,
                    description: None,
                    required: None,
                    deprecated: None,
                    allow_empty_value: None,
                    style: None,
                    explode: None,
                    allow_reserved: None,
                    schema: None,
                    example: None,
                    examples: None,
                    content: None,
                },
            ),
    {
        Self::data(Parameter::new(name, ParameterIn::Query))
    }

    /// An inline path parameter, marked required.
    pub fn path_param(name: &str) -> (r: Self)
        ensures
            r.deep_view() == ReferenceableV::Data(
                ParameterV {
                    name: name@,
                    _in: ParameterIn::Path,
                    description: None,
                    required: Some(true),
                    deprecated: None,
                    allow_empty_value: None,
                    style: None,
                    explode: None,
                    allow_reserved: None,
                    schema: None,
                    example: None,
                    examples: None,
                    content: None,
                },
            ),
    {
        Self::data(Parameter::new(name, ParameterIn::Path).with_required(true))
    }

    /// An inline header parameter.
    pub fn header_param(name: &str) -> (r: Self)
        ensures
            r.deep_view() == ReferenceableV::Data(
                ParameterV {
                    name: name@,
                    _in: ParameterIn::Header,
                    description: None,
                    required: None,
                    deprecated: None,
                    allow_empty_value: None,
                    style: None,
                    explode: None,
                    allow_reserved: None,
                    schema: None,
                    example: None,
                    examples: None,
                    content: None,
                },
            ),
    {
        Self::data(Parameter::new(name, ParameterIn::Header))
    }

    /// Add a schema if this node holds data; a pointer is unchanged.
    pub fn with_schema(self, schema: Referenceable<Schema>) -> (r: Self)
        ensures
            match self.deep_view() {
                ReferenceableV::Data(p) => r.deep_view() == ReferenceableV::Data(
                    ParameterV { schema: Some(schema.deep_view()), ..p },
                ),
                ReferenceableV::Reference(s) => r.deep_view() == self.deep_view(),
            },
    {
        match self {
            Referenceable::Data(param) => Referenceable::Data(param.with_schema(schema)),
            Referenceable::Reference(rf) => Referenceable::Reference(rf),
        }
    }

    /// Add a description if this node holds data; a pointer is unchanged.
    pub fn with_description(self, description: &str) -> (r: Self)
        ensures
            match self.deep_view() {
                ReferenceableV::Data(p) => r.deep_view() == ReferenceableV::Data(
                    ParameterV { description: Some(description@), ..p },
                ),
                ReferenceableV::Reference(s) => r.deep_view() == self.deep_view(),
            },
    {
        match self {
            Referenceable::Data(param) => Referenceable::Data(param.with_description(description)),
            Referenceable::Reference(rf) => Referenceable::Reference(rf),
        }
    }

    /// Mark the parameter required if this node holds data; a pointer is
    /// unchanged.
    pub fn with_required(self, required: bool) -> (r: Self)
        ensures
            match self.deep_view() {
                ReferenceableV::Data(p) => r.deep_view() == ReferenceableV::Data(
                    ParameterV { required: Some(required), ..p },
                ),
                ReferenceableV::Reference(s) => r.deep_view() == self.deep_view(),
            },
    {
        match self {
            Referenceable::Data(param) => Referenceable::Data(param.with_required(required)),
            Referenceable::Reference(rf) => Referenceable::Reference(rf),
        }
    }
}

impl Referenceable<RequestBody> {
    /// A reference to a request-body component.
    pub fn request_body_ref(name: &str) -> (r: Self)
        ensures
            r.deep_view() == ReferenceableV::<crate::params::RequestBodyV>::Reference(
                "#/components/"@ + "requestBodies"@ + "/"@ + name@,
            ),
    {
        Self::component_ref("requestBodies", name)
    }

    /// An inline JSON request body with the given schema.
    pub fn json_body(schema: Referenceable<Schema>) -> (r: Self)
        ensures
            r.deep_view() == ReferenceableV::Data(
                crate::params::RequestBodyV {
                    description: None,
                    required: None,
                    content: crate::smap::sorted_insert(
                        Seq::empty(),
                        "application/json"@,
                        crate::media::MediaTypeV {
                            schema: Some(schema.deep_view()),
                            example: None,
                            examples: None,
                            encoding: None,
                        },
                    ),
                },
            ),
    {
        let mut content: SortedMap<MediaType> = SortedMap::new();
        content.insert("application/json".to_owned(), MediaType::new().with_schema(schema));
        Self::data(RequestBody::new(content))
    }
}

/// Builder for assembling operations with a fluent interface.
pub struct OperationBuilder {
    pub operation: Operation,
}

impl OperationBuilder {
    /// Start from an empty operation with no responses.
    pub fn new() -> (r: Self)
        ensures
            r.operation.deep_view() == (OperationV {
                tags: None,
                summary: None,
                description: None,
                external_docs: None,
                operation_id: None,
                parameters: None,
                request_body: None,
                responses: ResponsesV {
                    default: None,
                    data: Seq::<(Seq<char>, ReferenceableV<ResponseV>)>::empty(),
                },
                callbacks: None,
                deprecated: None,
                security: None,
                servers: None,
            }),
    {
        OperationBuilder { operation: Operation::new(Responses::new()) }
    }

    /// Set the summary.
    pub fn summary(self, summary: &str) -> (r: Self)
        ensures
            r.operation.deep_view() == (OperationV {
                summary: Some(summary@),
                ..self.operation.deep_view()
            }),
    {
        OperationBuilder { operation: self.operation.with_summary(summary) }
    }

    /// Set the description.
    pub fn description(self, description: &str) -> (r: Self)
        ensures
            r.operation.deep_view() == (OperationV {
                description: Some(description@),
                ..self.operation.deep_view()
            }),
    {
        OperationBuilder { operation: self.operation.with_description(description) }
    }

    /// Set the operation id.
    pub fn operation_id(self, operation_id: &str) -> (r: Self)
        ensures
            r.operation.deep_view() == (OperationV {
                operation_id: Some(operation_id@),
                ..self.operation.deep_view()
            }),
    {
        OperationBuilder { operation: self.operation.with_operation_id(operation_id) }
    }

    /// Add one tag.
    pub fn tag(self, tag: &str) -> (r: Self)
        ensures
            r.operation.deep_view() == (OperationV {
                tags: Some(
                    match self.operation.deep_view().tags {
                        Some(list) => list.push(tag@),
                        None => seq![tag@],
                    },
                ),
                ..self.operation.deep_view()
            }),
    {
        let mut list = match self.operation.tags {
            Some(l) => l,
            None => Vec::new(),
        };
        let ghost pre = list.deep_view();
        list.push(tag.to_owned());
        proof {
            assert(list.deep_view() =~= pre.push(tag@));
            if self.operation.tags is None {
                assert(pre =~= Seq::<Seq<char>>::empty());
                assert(pre.push(tag@) =~= seq![tag@]);
            }
        }
        OperationBuilder { operation: Operation { tags: Some(list), ..self.operation } }
    }

    /// Replace the tag list.
    pub fn tags(self, tags: Vec<String>) -> (r: Self)
        ensures
            r.operation.deep_view() == (OperationV {
                tags: Some(tags.deep_view()),
                ..self.operation.deep_view()
            }),
    {
        OperationBuilder { operation: self.operation.with_tags(tags) }
    }

    /// Add one parameter.
    pub fn parameter(self, parameter: Referenceable<Parameter>) -> (r: Self)
        ensures
            r.operation.deep_view() == (OperationV {
                parameters: Some(
                    match self.operation.deep_view().parameters {
                        Some(list) => list.push(parameter.deep_view()),
                        None => seq![parameter.deep_view()],
                    },
                ),
                ..self.operation.deep_view()
            }),
    {
        let mut list = match self.operation.parameters {
            Some(l) => l,
            None => Vec::new(),
        };
        let ghost pre = list.deep_view();
        let ghost pv = parameter.deep_view();
        list.push(parameter);
        proof {
            assert(list.deep_view() =~= pre.push(pv));
            if self.operation.parameters is None {
                assert(pre =~= Seq::<ReferenceableV<ParameterV>>::empty());
                assert(pre.push(pv) =~= seq![pv]);
            }
        }
        OperationBuilder { operation: Operation { parameters: Some(list), ..self.operation } }
    }

    /// Replace the parameter list.
    pub fn parameters(self, parameters: Vec<Referenceable<Parameter>>) -> (r: Self)
        ensures
            r.operation.deep_view() == (OperationV {
                parameters: Some(parameters.deep_view()),
                ..self.operation.deep_view()
            }),
    {
        OperationBuilder { operation: self.operation.with_parameters(parameters) }
    }

    /// Set the request body.
    pub fn request_body(self, request_body: Referenceable<RequestBody>) -> (r: Self)
        ensures
            r.operation.deep_view() == (OperationV {
                request_body: Some(request_body.deep_view()),
                ..self.operation.deep_view()
            }),
    {
        OperationBuilder { operation: self.operation.with_request_body(request_body) }
    }

    /// Add a response under the given status code.
    pub fn response(self, status: &str, response: Referenceable<Response>) -> (r: Self)
        ensures
            r.operation.deep_view() == (OperationV {
                responses: ResponsesV {
                    data: crate::smap::sorted_insert(
                        self.operation.deep_view().responses.data,
                        status@,
                        response.deep_view(),
                    ),
                    ..self.operation.deep_view().responses
                },
                ..self.operation.deep_view()
            }),
    {
        let responses = self.operation.responses.with_status(status, response);
        OperationBuilder { operation: Operation { responses, ..self.operation } }
    }

    /// Set the default response.
    pub fn default_response(self, response: Referenceable<Response>) -> (r: Self)
        ensures
            r.operation.deep_view() == (OperationV {
                responses: ResponsesV {
                    default: Some(response.deep_view()),
                    ..self.operation.deep_view().responses
                },
                ..self.operation.deep_view()
            }),
    {
        let responses = self.operation.responses.with_default(response);
        OperationBuilder { operation: Operation { responses, ..self.operation } }
    }

    /// Mark the operation deprecated.
    pub fn deprecated(self) -> (r: Self)
        ensures
            r.operation.deep_view() == (OperationV {
                deprecated: Some(true),
                ..self.operation.deep_view()
            }),
    {
        OperationBuilder { operation: Operation { deprecated: Some(true), ..self.operation } }
    }

    /// Finish and take the operation.
    pub fn build(self) -> (r: Operation)
        ensures
            r.deep_view() == self.operation.deep_view(),
    {
        self.operation
    }
}


/// What case folding a method name yields; the name stands for the
/// result of the library call below, which depends on the characters
/// alone.
pub uninterp spec fn lower_of(s: Seq<char>) -> Seq<char>;

/// Relies on str::to_lowercase: the lowercase form of the string,
/// depending on its characters alone.
#[verifier::external_body]
fn lowercase(s: &str) -> (r: String)
    ensures
        r@ == lower_of(s@),
{
    s.to_lowercase()
}

/// Route one operation to the slot its case-folded method name selects;
/// an unknown method name changes nothing.
pub open spec fn apply_operation(m: PathItemV, method: Seq<char>, op: OperationV) -> PathItemV {
    if lower_of(method) == "get"@ {
        PathItemV { get: Some(op), ..m }
    } else if lower_of(method) == "put"@ {
        PathItemV { put: Some(op), ..m }
    } else if lower_of(method) == "post"@ {
        PathItemV { post: Some(op), ..m }
    } else if lower_of(method) == "delete"@ {
        PathItemV { delete: Some(op), ..m }
    } else if lower_of(method) == "options"@ {
        PathItemV { options: Some(op), ..m }
    } else if lower_of(method) == "head"@ {
        PathItemV { head: Some(op), ..m }
    } else if lower_of(method) == "patch"@ {
        PathItemV { patch: Some(op), ..m }
    } else if lower_of(method) == "trace"@ {
        PathItemV { trace: Some(op), ..m }
    } else {
        m
    }
}

/// Route a whole list of named operations, in order.
pub open spec fn apply_operations(
    m: PathItemV,
    ops: Seq<(Seq<char>, OperationV)>,
) -> PathItemV
    decreases ops.len(),
{
    if ops.len() == 0 {
        m
    } else {
        apply_operations(apply_operation(m, ops[0].0, ops[0].1), ops.drop_first())
    }
}

impl PathItem {
    /// Set several operations at once, each under the slot its
    /// case-folded method name selects; unknown method names are
    /// ignored.
    #[verifier::loop_isolation(false)]
    pub fn with_operations(self, operations: Vec<(String, Operation)>) -> (r: Self)
        ensures
            r.deep_view() == apply_operations(self.deep_view(), operations.deep_view()),
    {
        let ghost full = operations.deep_view();
        let ghost orig = self.deep_view();
        let mut cur = self;
        let mut rest = operations;
        proof {
            assert(full.skip(0) =~= full);
        }
        let ghost i: int = 0;
        while rest.len() > 0
            invariant
                0 <= i <= full.len(),
                rest.deep_view() =~= full.skip(i),
                apply_operations(orig, full) == apply_operations(cur.deep_view(), full.skip(i)),
            decreases rest.len(),
        {
            let ghost pre_rest = rest.deep_view();
            let pair = rest.remove(0);
            proof {
                assert(pair.deep_view() == pre_rest[0]);
                assert(rest.deep_view() =~= pre_rest.drop_first());
                assert(pre_rest.drop_first() =~= full.skip(i + 1));
                assert(full.skip(i)[0] == pre_rest[0]);
            }
            let method = pair.0;
            let op = pair.1;
            let ghost opv = op.deep_view();
            let lower = lowercase(method.as_str());
            if lower == "get".to_owned() {
                cur = PathItem { get: Some(op), ..cur };
            } else if lower == "put".to_owned() {
                cur = PathItem { put: Some(op), ..cur };
            } else if lower == "post".to_owned() {
                cur = PathItem { post: Some(op), ..cur };
            } else if lower == "delete".to_owned() {
                cur = PathItem { delete: Some(op), ..cur };
            } else if lower == "options".to_owned() {
                cur = PathItem { options: Some(op), ..cur };
            } else if lower == "head".to_owned() {
                cur = PathItem { head: Some(op), ..cur };
            } else if lower == "patch".to_owned() {
                cur = PathItem { patch: Some(op), ..cur };
            } else if lower == "trace".to_owned() {
                cur = PathItem { trace: Some(op), ..cur };
            }
            proof {
                i = i + 1;
            }
        }
        proof {
            assert(full.skip(full.len() as int) =~= Seq::<(Seq<char>, OperationV)>::empty());
            assert(rest.deep_view().len() == 0);
            assert(i == full.len());
        }
        cur
    }
}

/// Fold a list of path bindings into a path map, front first; a repeated
/// path replaces the earlier binding.
pub open spec fn spec_add_paths(
    paths: Seq<(Seq<char>, PathItemV)>,
    new: Seq<(Seq<char>, PathItemV)>,
) -> Seq<(Seq<char>, PathItemV)>
    decreases new.len(),
{
    if new.len() == 0 {
        paths
    } else {
        spec_add_paths(crate::smap::sorted_insert(paths, new[0].0, new[0].1), new.drop_first())
    }
}

impl OpenAPIV3 {
    /// Add several paths at once, each going to its place in the key
    /// order.
    #[verifier::loop_isolation(false)]
    pub fn add_paths(self, paths: Vec<(String, PathItem)>) -> (r: Self)
        ensures
            r.deep_view() == (OpenAPIV3V {
                paths: spec_add_paths(self.deep_view().paths, paths.deep_view()),
                ..self.deep_view()
            }),
    {
        let ghost full = paths.deep_view();
        let ghost orig = self.deep_view().paths;
        let mut map = self.paths;
        let mut rest = paths;
        proof {
            assert(full.skip(0) =~= full);
        }
        let ghost i: int = 0;
        while rest.len() > 0
            invariant
                0 <= i <= full.len(),
                rest.deep_view() =~= full.skip(i),
                spec_add_paths(orig, full) == spec_add_paths(map.deep_view(), full.skip(i)),
            decreases rest.len(),
        {
            let ghost pre_rest = rest.deep_view();
            let pair = rest.remove(0);
            proof {
                assert(pair.deep_view() == pre_rest[0]);
                assert(rest.deep_view() =~= pre_rest.drop_first());
                assert(pre_rest.drop_first() =~= full.skip(i + 1));
                assert(full.skip(i)[0] == pre_rest[0]);
            }
            map.insert(pair.0, pair.1);
            proof {
                i = i + 1;
            }
        }
        proof {
            assert(full.skip(full.len() as int) =~= Seq::<(Seq<char>, PathItemV)>::empty());
            assert(rest.deep_view().len() == 0);
            assert(i == full.len());
        }
        OpenAPIV3 { paths: map, ..self }
    }
}

} // verus!
