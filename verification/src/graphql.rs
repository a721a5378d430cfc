//! The GraphQL schemas' root query objects.

pub mod gql_schema;
pub mod schema;
