pub mod string_truncation;
pub mod path_label;
pub mod nix_expr;
pub mod dispatch;
