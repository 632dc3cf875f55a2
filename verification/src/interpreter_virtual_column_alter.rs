//! The interpreter of `ALTER VIRTUAL COLUMN`: the request that it sends to the catalog.

use crate::errors::ErrorCode;
use vstd::prelude::*;

verus! {

/// The plan of `ALTER VIRTUAL COLUMN`.
#[derive(Debug)]
pub struct AlterVirtualColumnPlan {
    pub if_exists: bool,
    pub catalog: String,
    pub database: String,
    pub table: String,
    pub virtual_columns: Vec<String>,
}

/// The name under which the virtual columns of a table are kept.
#[derive(Debug)]
pub struct VirtualColumnNameIdent {
    pub tenant: String,
    pub table_id: u64,
}

/// The request to replace the virtual columns of a table.
#[derive(Debug)]
pub struct UpdateVirtualColumnReq {
    pub if_exists: bool,
    pub name_ident: VirtualColumnNameIdent,
    pub virtual_columns: Vec<String>,
}

/// Interprets one `ALTER VIRTUAL COLUMN` statement.
#[derive(Debug)]
pub struct AlterVirtualColumnInterpreter {
    pub plan: AlterVirtualColumnPlan,
}

impl AlterVirtualColumnInterpreter {
    /// The interpreter of `plan`.
    pub fn try_create(plan: AlterVirtualColumnPlan) -> (r: Result<
        AlterVirtualColumnInterpreter,
        ErrorCode,
    >)
        ensures
            r matches Ok(interpreter) && interpreter.plan == plan,
    {
        Ok(AlterVirtualColumnInterpreter { plan })
    }

    /// The name of this interpreter.
    pub fn name(&self) -> (name: &'static str)
        ensures
            name@ == "AlterVirtualColumnInterpreter"@,
    {
        "AlterVirtualColumnInterpreter"
    }

    /// The request that the statement sends to the catalog, for the table with the identity
    /// `table_id` of `tenant`.
    pub fn update_request(&self, tenant: String, table_id: u64) -> (req: UpdateVirtualColumnReq)
        ensures
            req.if_exists == self.plan.if_exists,
            req.name_ident.tenant == tenant,
            req.name_ident.table_id == table_id,
            req.virtual_columns@ == self.plan.virtual_columns@,
    {
        UpdateVirtualColumnReq {
            if_exists: self.plan.if_exists,
            name_ident: VirtualColumnNameIdent { tenant, table_id },
            virtual_columns: crate::text::clone_names(
                &self.plan.virtual_columns,
            ),
        }
    }
}

} // verus!
