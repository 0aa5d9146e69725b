//! Rewrite rules that give minified or transpiled JavaScript its plain form back.
//!
//! There are three rules: [`un_argument_spread`], [`un_has_own_call`] and [`un_infinity`].
//! They work on [`syntax`], through the traversal of [`rewrite`]. What holds of them as a
//! whole stands in the modules whose names end in `_laws`, in the terms of [`forms`].
pub mod apply_laws;
pub mod bindings;
pub mod decl_utils;
pub mod direct_eval;
pub mod eval_laws;
pub mod expr_utils;
pub mod forms;
pub mod join_laws;
pub mod occurs;
pub mod rewrite;
pub mod rewrite_laws;
pub mod rewrite_level;
pub mod same;
pub mod shadow_laws;
pub mod stable_laws;
pub mod syntax;
pub mod syntax_laws;
pub mod traversal_laws;
pub mod un_argument_spread;
pub mod un_argument_spread_laws;
pub mod un_has_own_call;
pub mod un_has_own_call_laws;
pub mod un_infinity;
pub mod un_infinity_laws;
pub mod use_laws;
pub mod walk;
