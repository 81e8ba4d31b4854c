//! Writing modules as SPIR-V.

pub mod branch_laws;
pub mod constant_laws;
pub mod constants;
pub mod declaration_laws;
pub mod depth_laws;
pub mod encoding_laws;
pub mod error;
pub mod execution_laws;
pub mod expression_laws;
pub mod expressions;
pub mod flow_laws;
pub mod function;
pub mod globals;
pub mod growth;
pub mod growth_declarations;
pub mod growth_expressions;
pub mod growth_statements;
pub mod instruction;
pub mod instructions;
pub mod interface_laws;
pub mod label_laws;
pub mod laws;
pub mod layout;
pub mod lookup;
pub mod lookup_laws;
pub mod model;
pub mod module;
pub mod module_laws;
pub mod open_types;
pub mod operation_laws;
pub mod operator_laws;
pub mod operators;
pub mod refusal_laws;
pub mod remark_laws;
pub mod remembering;
pub mod sample_laws;
pub mod statements;
pub mod table;
pub mod type_laws;
pub mod types;
pub mod typing;
pub mod typing_declarations;
pub mod typing_expressions;
pub mod typing_statements;
pub mod variable_laws;
pub mod words;
pub mod write_expressions;
pub mod writer;
