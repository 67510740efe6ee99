/*!
A schema-driven typed-binding synthesizer for tree-sitter style grammars.

Given a grammar document (the recursive rule algebra describing how source
text is parsed into a concrete syntax tree) and a node-types document (the
catalogue of every tree-node kind the parser can produce), the library
resolves the two schemas into a single binding plan: for every node type a
concrete shape (value leaf, compound node, or union of variants) with every
field's cardinality and target type resolved.  The plan is then flattened
into a backend-agnostic emission request whose ordering is deterministic.

Reading the schema files from disk and rendering the emission request into
source text are left to the surrounding application.
*/
pub mod emission;
pub mod grammar;
pub mod ident;
pub mod laws;
pub mod node_types;
pub mod order;
pub mod plan;
pub mod unify;
pub mod writer;
