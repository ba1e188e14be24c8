pub mod http_syntax;
pub mod message;
pub mod streaming;
pub mod text;
pub mod util;
pub mod wkwebview;

pub use message::{ContentLength, HttpRequest, HttpResponse, HttpVersion, ResponseHead};
pub use streaming::{PlatformAgnosticStreamHandle, StreamHandle, StreamOp, StreamTrace};
pub use util::Counter;
pub use wkwebview::urlscheme::conversion::into_http::{
    choose_body_source, BodySource, BodyStreamReader, RequestBody, UrlRequest, STREAM_CHUNK_LEN,
};
pub use wkwebview::urlscheme::conversion::into_objc::{HeaderFields, ObjcResponse};
pub use wkwebview::urlscheme::handler::respond;
pub use wkwebview::urlscheme::task::{Delivery, TaskError, TaskRegistry, TaskState};
