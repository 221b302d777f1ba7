//! Module-resolution policy: rewrite rules for requests and resolved paths,
//! and the options that shape a resolution.
pub mod condition;
pub mod import_map;
pub mod mapping;
pub mod options;
pub mod path;
pub mod text;

pub use condition::ConditionValue;
pub use import_map::{AliasMap, AliasPattern, Glob, ImportMap, ResolvedMap};
pub use mapping::{import_mapping_to_result, ImportMapResult, ImportMapping, SpecialType};
pub use options::{
    resolve_modules_options, LockedVersions, ResolveIntoPackage, ResolveModules,
    ResolveModulesOptions, ResolveOptions,
};
pub use path::FileSystemPath;
