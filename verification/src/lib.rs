//! A memory-safe handle layer over a JavaScript engine's object model:
//! value and object handles tied to their owning context, property access
//! by name and by index, and a single-pass cursor over an object's
//! enumerable property names.

#![allow(unused_imports)]

mod context;
mod decimal;
mod iter;
mod json;
mod model;
mod object;
mod text;
mod value;

pub use context::JSContext;
pub use context::JsCell;
pub use context::JsProp;
pub use iter::JSObjectPropertyNameIter;
pub use model::JsonMember;
pub use model::JsonVal;
pub use object::JSObject;
pub use text::JSString;
pub use value::JSValue;
