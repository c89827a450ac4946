//! The statements of a module as the tree shaker sees them: what each one
//! imports, exports, defines and uses.
use vstd::prelude::*;
use crate::str_set::StrSet;

verus! {

/// One binding of an import declaration.
#[derive(Clone)]
pub enum ImportSpecifier {
    /// `import * as foo from 'foo'`
    Namespace(String),
    /// `import { foo, default as zoo } from 'foo'`
    Named { local: String, imported: Option<String> },
    /// `import foo from 'foo'`
    Default(String),
}

/// One binding of an export declaration.
#[derive(Clone)]
pub enum ExportSpecifier {
    /// `export * from 'foo'`
    All(Option<Vec<String>>),
    /// `export { foo, default as zoo } from 'foo'`; `exported` is the name after `as`.
    Named { local: String, exported: Option<String> },
    /// `export default xxx`
    Default,
    /// `export * as foo from 'foo'`
    Namespace(String),
}

/// The index of a statement in its module.
pub type StatementId = usize;

/// What an import declaration brings in.
#[derive(Clone)]
pub struct ImportInfo {
    pub source: String,
    pub specifiers: Vec<ImportSpecifier>,
    pub stmt_id: StatementId,
}

/// What an export declaration sends out.
#[derive(Clone)]
pub struct ExportInfo {
    pub source: Option<String>,
    pub specifiers: Vec<ExportSpecifier>,
    pub stmt_id: StatementId,
}

/// An import statement with the names it defines.
#[derive(Clone)]
pub struct ImportStatement {
    pub id: StatementId,
    pub info: ImportInfo,
    pub is_self_executed: bool,
    pub defined_ident: StrSet,
}

/// An export statement with the names it defines and uses.
#[derive(Clone)]
pub struct ExportStatement {
    pub id: StatementId,
    pub info: ExportInfo,
    pub defined_ident: StrSet,
    pub used_ident: StrSet,
}

/// A statement of a module.
pub enum StatementType {
    Import(ImportStatement),
    Export(ExportStatement),
    Stmt { id: StatementId, defined_ident: StrSet, used_ident: StrSet, is_self_executed: bool },
}

impl StatementType {
    /// The index of the statement, whatever its kind.
    pub open spec fn spec_id(&self) -> StatementId {
        match self {
            StatementType::Import(s) => s.id,
            StatementType::Export(s) => s.id,
            StatementType::Stmt { id, .. } => *id,
        }
    }

    /// The names the statement defines, whatever its kind.
    pub open spec fn spec_defined(&self) -> StrSet {
        match self {
            StatementType::Import(s) => s.defined_ident,
            StatementType::Export(s) => s.defined_ident,
            StatementType::Stmt { defined_ident, .. } => *defined_ident,
        }
    }

    pub fn get_id(&self) -> (r: StatementId)
        ensures
            r == self.spec_id(),
    {
        match self {
            StatementType::Import(s) => s.id,
            StatementType::Export(s) => s.id,
            StatementType::Stmt { id, .. } => *id,
        }
    }

    pub fn get_defined_ident(&self) -> (r: &StrSet)
        ensures
            *r == self.spec_defined(),
    {
        match self {
            StatementType::Import(s) => &s.defined_ident,
            StatementType::Export(s) => &s.defined_ident,
            StatementType::Stmt { defined_ident, .. } => defined_ident,
        }
    }

    /// The names the statement uses; an import uses none of its own.
    pub fn get_used_ident(&self) -> (r: Option<&StrSet>)
        ensures
            match self {
                StatementType::Import(_) => r.is_none(),
                StatementType::Export(s) => r == Some(&s.used_ident),
                StatementType::Stmt { used_ident, .. } => r == Some(used_ident),
            },
    {
        match self {
            StatementType::Import(_) => None,
            StatementType::Export(s) => Some(&s.used_ident),
            StatementType::Stmt { used_ident, .. } => Some(used_ident),
        }
    }
}

/// The identifiers that link two statements of a module.
pub struct StatementGraphEdge {
    pub ident: StrSet,
}

} // verus!
