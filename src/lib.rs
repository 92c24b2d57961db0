//! A retained-identity view-composition core: path-shaped view ids, a per-id
//! state store with dirty tracking, the view protocol, and two wrapper views.
pub mod context;
pub mod event;
pub mod geometry;
pub mod id;
pub mod id_map;
pub mod key_view;
pub mod map_view;
pub mod state;
pub mod view;

pub use context::{Context, CxModel};
pub use event::{CommandInfo, Event, Key};
pub use geometry::{LayoutBox, LocalOffset, LocalPoint, LocalRect, LocalSize, LocalToWorld};
pub use id::{Segment, Step, ViewId};
pub use id_map::IdMap;
pub use key_view::KeyView;
pub use map_view::MapView;
pub use state::{Payload, State, StateValue, Value};
pub use view::{EmptyView, ViewNode};
