//! Immediate-mode debug-drawing geometry engine for 2D overlays.
//!
//! Callers describe shapes (line, rectangle, circle, triangle, text); the
//! engine tessellates each description into a triangle mesh, batches the
//! meshes by a depth sort key, and merges them into a single draw-ready mesh
//! once per frame.
//!
//! All geometry is carried in signed fixed-point integers: coordinates are
//! plain `i64` units, and rotations and scale factors are `i64` fractions
//! with `FX_ONE` standing for one. Division always rounds toward negative
//! infinity (floor), which is this library's documented rounding convention.

pub mod circle;
pub mod draw;
pub mod drawable;
pub mod font;
pub mod geom;
pub mod line;
pub mod mesh;
pub mod outline;
pub mod rectangle;
pub mod text;
pub mod triangle;

pub use circle::DebugDrawCircle;
pub use draw::DebugDraw;
pub use drawable::DebugDrawDrawable;
pub use font::CharQuery;
pub use font::GlyphCache;
pub use geom::Rotor;
pub use geom::Vec2;
pub use geom::COORD_LIMIT;
pub use geom::FX_ONE;
pub use line::DebugLine;
pub use line::DebugLineColor;
pub use mesh::Color;
pub use outline::OutlineAssembler;
pub use mesh::DebugDrawMesh;
pub use mesh::DebugDrawVertex;
pub use rectangle::DebugRectangle;
pub use text::Character;
pub use text::DebugText;
pub use text::DebugTextAlignment;
pub use text::DebugTextVerticalAlignment;
pub use text::Glyph;
pub use text::GlyphTriangle;
pub use triangle::DebugTriangle;
