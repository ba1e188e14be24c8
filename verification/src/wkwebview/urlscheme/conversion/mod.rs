pub mod into_http;
pub mod into_objc;
