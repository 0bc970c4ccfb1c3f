//! Access to values that may sit behind locks, be computed on demand, or
//! lie deep inside other values.
//!
//! A view lends a reference to a callback rather than returning it, so that
//! the view controls how long the reference lives.

mod bridges;
mod compute;
mod error;
mod ext;
mod impls;
mod map;
mod view;

pub use bridges::Freeze;
pub use compute::{ComputeView, ComputeViewMut};
pub use error::ViewError;
pub use ext::{ViewExt, ViewMutExt};
pub use impls::{ArcRwLockView, ArcView};
pub use map::{MapView, MapViewMut, TryMapView};
pub use view::{View, ViewBase, ViewCallback, ViewMut, ViewMutCallback};
