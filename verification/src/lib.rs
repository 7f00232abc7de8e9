//! A streaming XML serializer.
//!
//! The writer emits markup directly into an output buffer as methods are
//! called, without building any intermediate document tree.  It keeps a
//! stack of open elements, a parallel stack of the namespace prefixes that
//! were current when each element was opened, and formatting flags that
//! select one of three output modes (compact, pretty, fully pretty).
//!
//! Every operation's effect on the output and on the writer's state is
//! specified by the transition functions in [`model`], and the laws the
//! writer obeys are proved in [`laws`].

pub mod laws;
pub mod model;
pub mod xml_writer;

pub use xml_writer::XmlWriter;
