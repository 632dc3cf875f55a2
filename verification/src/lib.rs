//! The expression-evaluation and subquery-scheduling core of a distributed SQL query engine.
//!
//! Expressions are named and typed ([`plan_expression`]), compiled into ordered chains of
//! actions ([`expression_chain`]), and executed over batches ([`transform_expression_executor`],
//! [`transform_filter`]). The `EXISTS` subqueries of a statement are resolved from the inside
//! out, and the remote fragments of a plan are prepared one after the other
//! ([`interpreter_select`]).

pub mod basic_functions;
pub mod context;
pub mod data_block;
pub mod data_type;
pub mod data_value;
pub mod errors;
pub mod expression_chain;
pub mod functions;
pub mod identity;
pub mod index;
pub mod interpreter_select;
pub mod interpreter_virtual_column_alter;
pub mod mysql_handler;
pub mod name_map;
pub mod names;
pub mod plan_equality;
pub mod plan_expression;
pub mod plan_node;
pub mod plan_scan;
pub mod plan_select;
pub mod task;
pub mod text;
pub mod transform_expression_executor;
pub mod transform_filter;
pub mod udf;

pub use context::FuseQueryContext;
pub use data_block::DataBlock;
pub use data_type::DataField;
pub use data_type::DataSchema;
pub use data_type::DataSchemaRef;
pub use data_type::DataType;
pub use data_value::DataColumnarValue;
pub use data_value::DataValue;
pub use errors::ErrorCode;
pub use errors::ErrorKind;
pub use expression_chain::ExpressionAction;
pub use expression_chain::ExpressionChain;
pub use index::CreateIndexPlan;
pub use index::DropIndexPlan;
pub use index::RefreshIndexPlan;
pub use interpreter_select::SelectInterpreter;
pub use interpreter_virtual_column_alter::AlterVirtualColumnInterpreter;
pub use plan_expression::Expression;
pub use plan_expression::ExpressionPlan;
pub use plan_node::FilterPlan;
pub use plan_node::PlanNode;
pub use plan_scan::ScanPlan;
pub use plan_select::SelectPlan;
pub use plan_select::SubqueryResult;
pub use task::make_schedule_options;
pub use task::make_warehouse_options;
pub use transform_expression_executor::ExpressionExecutor;
pub use transform_filter::FilterTransform;
pub use udf::AlterUDFStmt;
pub use udf::CreateUDFStmt;
pub use udf::UDFDefinition;
