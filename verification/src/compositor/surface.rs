//! The bounded Wayland surface registry.
//!
//! The capacity refusal is a typed error, a duplicate identifier is refused
//! rather than stored twice, and focusing a surface the registry does not
//! hold is a refusal that changes nothing. Nothing is composited, rendered,
//! mapped or displayed: a surface is a row in a fixed array.

use vstd::prelude::*;
use crate::compositor::error::CompositorError;
use crate::compositor::id::Label;

verus! {

/// Scalar upper bound on the surface registry.
pub const MAX_SURFACES: usize = 256;

/// The memory ceiling the compositor unit declares, in mebibytes. Recorded,
/// not applied.
pub const UNIT_MEMORY_MAX_MIB: u32 = 256;

/// The four `wlr-layer-shell` rendering layers, lowest first.
#[derive(Debug, Clone, Copy, PartialEq, Eq, Hash, PartialOrd, Ord, Structural)]
#[non_exhaustive]
pub enum SurfaceLayer {
    /// Ambient surfaces, lowest.
    Background,
    /// Standard application surfaces.
    Bottom,
    /// Focused user interface and active agent interfaces.
    Top,
    /// High-priority safety alerts and the admission gate, highest.
    Overlay,
}

/// The stacking index of a layer, lowest first.
pub open spec fn layer_index(layer: SurfaceLayer) -> u32 {
    match layer {
        SurfaceLayer::Background => 0,
        SurfaceLayer::Bottom => 1,
        SurfaceLayer::Top => 2,
        SurfaceLayer::Overlay => 3,
    }
}

/// The stable name a layer is recorded under.
pub open spec fn layer_name(layer: SurfaceLayer) -> Seq<char> {
    match layer {
        SurfaceLayer::Background => "background"@,
        SurfaceLayer::Bottom => "bottom"@,
        SurfaceLayer::Top => "top"@,
        SurfaceLayer::Overlay => "overlay"@,
    }
}

impl SurfaceLayer {
    /// All four layers, lowest first.
    pub const ALL: [SurfaceLayer; 4] = [
        SurfaceLayer::Background,
        SurfaceLayer::Bottom,
        SurfaceLayer::Top,
        SurfaceLayer::Overlay,
    ];

    /// The stable name this layer is recorded under.
    pub fn name(self) -> (r: &'static str)
        ensures
            r@ == layer_name(self),
    {
        match self {
            SurfaceLayer::Background => "background",
            SurfaceLayer::Bottom => "bottom",
            SurfaceLayer::Top => "top",
            SurfaceLayer::Overlay => "overlay",
        }
    }

    /// The stacking index, lowest first.
    pub fn index(self) -> (r: u32)
        ensures
            r == layer_index(self),
    {
        match self {
            SurfaceLayer::Background => 0,
            SurfaceLayer::Bottom => 1,
            SurfaceLayer::Top => 2,
            SurfaceLayer::Overlay => 3,
        }
    }

    /// Returns `true` when this layer carries the safety-alert admission gate.
    pub fn is_admission_gate(self) -> (r: bool)
        ensures
            r == (self == SurfaceLayer::Overlay),
    {
        match self {
            SurfaceLayer::Overlay => true,
            _ => false,
        }
    }
}

/// A surface identifier.
#[derive(Debug, Clone, Copy, PartialEq, Eq, Hash, PartialOrd, Ord, Structural)]
pub struct SurfaceId(u32);

impl SurfaceId {
    /// Names a surface by its raw identifier.
    pub fn new(raw: u32) -> (r: Self)
        ensures
            r@ == raw,
    {
        SurfaceId(raw)
    }

    /// The raw identifier.
    pub fn get(self) -> (r: u32)
        ensures
            r == self@,
    {
        self.0
    }
}

impl View for SurfaceId {
    type V = u32;

    closed spec fn view(&self) -> u32 {
        self.0
    }
}


/// The pixel dimensions of one surface.
#[derive(Debug, Clone, Copy, PartialEq, Eq, Hash, Structural)]
pub struct SurfaceGeometry {
    /// The width in pixels.
    pub width: u32,
    /// The height in pixels.
    pub height: u32,
}

impl SurfaceGeometry {
    /// Names a geometry.
    pub fn new(width: u32, height: u32) -> (r: Self)
        ensures
            r.width == width,
            r.height == height,
    {
        SurfaceGeometry { width, height }
    }
}

/// Everything needed to register one surface.
#[derive(Debug, Clone, Copy, PartialEq, Eq)]
pub struct SurfaceRequest {
    /// The surface identifier.
    pub id: SurfaceId,
    /// The surface title.
    pub title: Label,
    /// The surface dimensions.
    pub geometry: SurfaceGeometry,
    /// The layer the surface is placed on.
    pub layer: SurfaceLayer,
    /// The process that owns the surface.
    pub pid: u32,
}

/// One registry row.
#[derive(Debug, Clone, Copy, PartialEq, Eq)]
pub struct WaylandSurface {
    /// The surface identifier.
    pub id: SurfaceId,
    /// The surface title.
    pub title: Label,
    /// The surface dimensions.
    pub geometry: SurfaceGeometry,
    /// The layer the surface is placed on.
    pub layer: SurfaceLayer,
    /// The process that owns the surface.
    pub pid: u32,
    /// Whether the surface currently holds focus.
    pub focused: bool,
}

/// The row a request registers: the request's fields, unfocused.
pub open spec fn row_of(request: SurfaceRequest) -> WaylandSurface {
    WaylandSurface {
        id: request.id,
        title: request.title,
        geometry: request.geometry,
        layer: request.layer,
        pid: request.pid,
        focused: false,
    }
}

/// `row` with its focus flag set exactly when it is `id`.
pub open spec fn refocused(row: WaylandSurface, id: SurfaceId) -> WaylandSurface {
    WaylandSurface { focused: row.id == id, ..row }
}

/// The mathematical content of a [`SurfaceRegistry`]: its rows in
/// registration order, and the surface holding focus.
pub struct RegistryView {
    pub rows: Seq<WaylandSurface>,
    pub focused: Option<SurfaceId>,
}

/// The first row with identifier `id`.
pub open spec fn surface_named(rows: Seq<WaylandSurface>, id: SurfaceId) -> Option<WaylandSurface>
    decreases rows.len(),
{
    if rows.len() == 0 {
        None
    } else if rows[0].id == id {
        Some(rows[0])
    } else {
        surface_named(rows.drop_first(), id)
    }
}

/// How many rows sit on `layer`.
pub open spec fn rows_on(rows: Seq<WaylandSurface>, layer: SurfaceLayer) -> nat
    decreases rows.len(),
{
    if rows.len() == 0 {
        0
    } else {
        rows_on(rows.drop_last(), layer) + if rows.last().layer == layer {
            1nat
        } else {
            0nat
        }
    }
}

/// What every registry keeps: at most [`MAX_SURFACES`] rows, no identifier
/// twice, and the focus flags set on exactly the row the focus names.
pub open spec fn registry_wf(v: RegistryView) -> bool {
    &&& v.rows.len() <= MAX_SURFACES
    &&& forall|i: int, j: int| 0 <= i < j < v.rows.len() ==> v.rows[i].id != v.rows[j].id
    &&& forall|i: int|
        0 <= i < v.rows.len() ==> (#[trigger] v.rows[i].focused <==> v.focused == Some(
            v.rows[i].id,
        ))
    &&& v.focused matches Some(f) ==> surface_named(v.rows, f) is Some
}

/// The bounded surface registry: a fixed array, so registering a surface
/// allocates nothing.
#[derive(Debug, Clone, Copy)]
pub struct SurfaceRegistry {
    surfaces: [Option<WaylandSurface>; MAX_SURFACES],
    count: usize,
    focused: Option<SurfaceId>,
}

impl View for SurfaceRegistry {
    type V = RegistryView;

    closed spec fn view(&self) -> RegistryView {
        RegistryView {
            rows: Seq::new(self.count as nat, |i: int| self.surfaces@[i]->Some_0),
            focused: self.focused,
        }
    }
}

proof fn lemma_surface_named_some(rows: Seq<WaylandSurface>, id: SurfaceId, i: int)
    requires
        0 <= i < rows.len(),
        rows[i].id == id,
    ensures
        surface_named(rows, id) is Some,
    decreases rows.len(),
{
    if rows[0].id != id {
        lemma_surface_named_some(rows.drop_first(), id, i - 1);
    }
}

proof fn lemma_surface_named_none(rows: Seq<WaylandSurface>, id: SurfaceId)
    requires
        forall|i: int| 0 <= i < rows.len() ==> rows[i].id != id,
    ensures
        surface_named(rows, id) is None,
    decreases rows.len(),
{
    if rows.len() > 0 {
        lemma_surface_named_none(rows.drop_first(), id);
    }
}

proof fn lemma_surface_named_unique(rows: Seq<WaylandSurface>, id: SurfaceId, i: int)
    requires
        0 <= i < rows.len(),
        rows[i].id == id,
        forall|a: int, b: int| 0 <= a < b < rows.len() ==> rows[a].id != rows[b].id,
    ensures
        surface_named(rows, id) == Some(rows[i]),
    decreases rows.len(),
{
    if i > 0 {
        assert(rows[0].id != id);
        lemma_surface_named_unique(rows.drop_first(), id, i - 1);
    }
}

proof fn lemma_surface_named_push(rows: Seq<WaylandSurface>, id: SurfaceId, row: WaylandSurface)
    requires
        surface_named(rows, id) is Some,
    ensures
        surface_named(rows.push(row), id) == surface_named(rows, id),
    decreases rows.len(),
{
    if rows[0].id != id {
        assert(rows.push(row).drop_first() =~= rows.drop_first().push(row));
        lemma_surface_named_push(rows.drop_first(), id, row);
    }
}

/// Looking up an identifier after appending a row of another identifier
/// finds what it found before; appending a row of a new identifier makes the
/// lookup find that row.
proof fn lemma_surface_named_append(rows: Seq<WaylandSurface>, id: SurfaceId, row: WaylandSurface)
    ensures
        row.id != id ==> surface_named(rows.push(row), id) == surface_named(rows, id),
        surface_named(rows, id) is None && row.id == id ==> surface_named(rows.push(row), id)
            == Some(row),
    decreases rows.len(),
{
    if rows.len() == 0 {
        assert(rows.push(row) =~= seq![row]);
        assert(seq![row][0] == row);
        assert(seq![row].drop_first() =~= Seq::<WaylandSurface>::empty());
        assert(surface_named(Seq::<WaylandSurface>::empty(), id) is None);
    } else {
        assert(rows.push(row).drop_first() =~= rows.drop_first().push(row));
        assert(rows.push(row)[0] == rows[0]);
        lemma_surface_named_append(rows.drop_first(), id, row);
    }
}

/// A registered surface is found again. Once registering `request` on the
/// rows `rows` succeeds (its identifier was not held, and the row it
/// describes is appended), looking that identifier up gives exactly the row
/// the request describes, unfocused, and every other identifier looks up as
/// it did before.
pub proof fn registered_surface_is_found(
    rows: Seq<WaylandSurface>,
    request: SurfaceRequest,
    other: SurfaceId,
)
    requires
        surface_named(rows, request.id) is None,
    ensures
        surface_named(rows.push(row_of(request)), request.id) == Some(row_of(request)),
        !row_of(request).focused,
        other != request.id ==> surface_named(rows.push(row_of(request)), other) == surface_named(
            rows,
            other,
        ),
{
    lemma_surface_named_append(rows, request.id, row_of(request));
    lemma_surface_named_append(rows, other, row_of(request));
}

impl SurfaceRegistry {
    #[verifier::type_invariant]
    closed spec fn well_formed(self) -> bool {
        &&& self.count <= MAX_SURFACES
        &&& forall|i: int|
            0 <= i < MAX_SURFACES ==> (#[trigger] self.surfaces@[i] is Some <==> i < self.count)
        &&& registry_wf(self@)
    }

    /// Builds an empty registry.
    pub fn new() -> (r: Self)
        ensures
            r@.rows.len() == 0,
            r@.focused is None,
            registry_wf(r@),
    {
        let r = SurfaceRegistry { surfaces: [None; 256], count: 0, focused: None };
        assert(r@.rows =~= Seq::<WaylandSurface>::empty());
        r
    }

    /// Registers one layer surface. A duplicate identifier is refused, then
    /// a full registry; a refusal changes nothing.
    pub fn register(&mut self, request: SurfaceRequest) -> (r: Result<SurfaceId, CompositorError>)
        ensures
            registry_wf(final(self)@),
            match r {
                Ok(id) => {
                    &&& id == request.id
                    &&& surface_named(old(self)@.rows, request.id) is None
                    &&& old(self)@.rows.len() < MAX_SURFACES
                    &&& final(self)@.rows == old(self)@.rows.push(row_of(request))
                    &&& final(self)@.focused == old(self)@.focused
                },
                Err(e) => {
                    &&& final(self)@ == old(self)@
                    &&& if surface_named(old(self)@.rows, request.id) is Some {
                        e == CompositorError::DuplicateSurface { id: request.id@ }
                    } else {
                        old(self)@.rows.len() >= MAX_SURFACES && e
                            == CompositorError::SurfaceRegistryFull { max: MAX_SURFACES }
                    }
                },
            },
    {
        proof {
            use_type_invariant(&*self);
        }
        if self.get(request.id).is_some() {
            return Err(CompositorError::DuplicateSurface { id: request.id.get() });
        }
        if self.count >= MAX_SURFACES {
            return Err(CompositorError::SurfaceRegistryFull { max: MAX_SURFACES });
        }
        let surface = WaylandSurface {
            id: request.id,
            title: request.title,
            geometry: request.geometry,
            layer: request.layer,
            pid: request.pid,
            focused: false,
        };
        let ghost before = self@;
        let mut surfaces = self.surfaces;
        surfaces[self.count] = Some(surface);
        proof {
            assert forall|i: int| 0 <= i < before.rows.len() implies before.rows[i].id
                != request.id by {
                if before.rows[i].id == request.id {
                    lemma_surface_named_some(before.rows, request.id, i);
                }
            }
            match before.focused {
                Some(f) => lemma_surface_named_push(before.rows, f, surface),
                None => {},
            }
        }
        let ghost new_rows = before.rows.push(surface);
        assert(Seq::new((self.count + 1) as nat, |i: int| surfaces@[i]->Some_0) =~= new_rows);
        assert(forall|i: int, j: int|
            0 <= i < j < new_rows.len() ==> new_rows[i].id != new_rows[j].id);
        assert(registry_wf(RegistryView { rows: new_rows, focused: before.focused }));
        *self = SurfaceRegistry { surfaces, count: self.count + 1, focused: self.focused };
        assert(self@.rows =~= before.rows.push(surface));
        Ok(request.id)
    }

    /// Moves focus to `id` and returns the surface that now holds it; every
    /// other row loses focus. An unknown identifier is refused and changes
    /// nothing.
    pub fn focus(&mut self, id: SurfaceId) -> (r: Result<WaylandSurface, CompositorError>)
        ensures
            registry_wf(final(self)@),
            match r {
                Ok(row) => {
                    &&& surface_named(old(self)@.rows, id) matches Some(held) && row == refocused(
                        held,
                        id,
                    )
                    &&& final(self)@.rows == old(self)@.rows.map_values(
                        |w: WaylandSurface| refocused(w, id),
                    )
                    &&& final(self)@.focused == Some(id)
                },
                Err(e) => {
                    &&& surface_named(old(self)@.rows, id) is None
                    &&& e == CompositorError::UnknownSurface { id: id@ }
                    &&& final(self)@ == old(self)@
                },
            },
    {
        proof {
            use_type_invariant(&*self);
        }
        let held = match self.get(id) {
            Some(row) => row,
            None => return Err(CompositorError::UnknownSurface { id: id.get() }),
        };
        let ghost before = self@;
        let mut surfaces = self.surfaces;
        let n = self.count;
        let mut i: usize = 0;
        while i < n
            invariant
                i <= n <= MAX_SURFACES,
                n == before.rows.len(),
                forall|k: int| 0 <= k < MAX_SURFACES ==> (#[trigger] surfaces@[k] is Some <==> k < n),
                forall|k: int| 0 <= k < i ==> #[trigger] surfaces@[k]->Some_0 == refocused(before.rows[k], id),
                forall|k: int| i <= k < n ==> #[trigger] surfaces@[k]->Some_0 == before.rows[k],
            decreases n - i,
        {
            let row = surfaces[i].unwrap();
            surfaces[i] = Some(WaylandSurface { focused: row.id == id, ..row });
            i += 1;
        }
        let ghost new_rows = before.rows.map_values(|w: WaylandSurface| refocused(w, id));
        proof {
            let k = choose|k: int|
                0 <= k < before.rows.len() && before.rows[k] == held && held.id == id;
            assert(new_rows[k].id == id);
            lemma_surface_named_some(new_rows, id, k);
            assert(Seq::new(n as nat, |i: int| surfaces@[i]->Some_0) =~= new_rows);
            assert(forall|i: int, j: int|
                0 <= i < j < new_rows.len() ==> new_rows[i].id != new_rows[j].id);
            assert(registry_wf(RegistryView { rows: new_rows, focused: Some(id) }));
        }
        *self = SurfaceRegistry { surfaces, count: n, focused: Some(id) };
        assert(self@.rows =~= before.rows.map_values(|w: WaylandSurface| refocused(w, id)));
        Ok(WaylandSurface { focused: true, ..held })
    }

    /// The row for `id`, when the registry holds one.
    pub fn get(&self, id: SurfaceId) -> (r: Option<WaylandSurface>)
        ensures
            r == surface_named(self@.rows, id),
            r matches Some(row) ==> exists|k: int|
                0 <= k < self@.rows.len() && self@.rows[k] == row && row.id == id,
    {
        proof {
            use_type_invariant(self);
        }
        let ghost rows = self@.rows;
        let mut i: usize = 0;
        while i < self.count
            invariant
                i <= self.count <= MAX_SURFACES,
                rows == self@.rows,
                forall|k: int| 0 <= k < MAX_SURFACES ==> (#[trigger] self.surfaces@[k] is Some <==> k < self.count),
                forall|k: int| 0 <= k < i ==> rows[k].id != id,
                registry_wf(self@),
            decreases self.count - i,
        {
            let row = self.surfaces[i].unwrap();
            if row.id == id {
                proof {
                    lemma_surface_named_unique(rows, id, i as int);
                }
                return Some(row);
            }
            i += 1;
        }
        proof {
            lemma_surface_named_none(rows, id);
        }
        None
    }

    /// The surface that currently holds focus, if any.
    pub fn focused(&self) -> (r: Option<SurfaceId>)
        ensures
            r == self@.focused,
    {
        self.focused
    }

    /// How many surfaces the registry holds.
    pub fn count(&self) -> (r: usize)
        ensures
            r == self@.rows.len(),
            registry_wf(self@),
    {
        proof {
            use_type_invariant(self);
        }
        self.count
    }

    /// Returns `true` when the registry holds no surface.
    pub fn is_empty(&self) -> (r: bool)
        ensures
            r == (self@.rows.len() == 0),
    {
        self.count == 0
    }

    /// How many surfaces sit on `layer`.
    pub fn layer_count(&self, layer: SurfaceLayer) -> (r: usize)
        ensures
            r == rows_on(self@.rows, layer),
    {
        proof {
            use_type_invariant(self);
        }
        let ghost rows = self@.rows;
        let mut seen: usize = 0;
        let mut i: usize = 0;
        while i < self.count
            invariant
                i <= self.count <= MAX_SURFACES,
                rows == self@.rows,
                forall|k: int| 0 <= k < MAX_SURFACES ==> (#[trigger] self.surfaces@[k] is Some <==> k < self.count),
                seen == rows_on(rows.take(i as int), layer),
                seen <= i,
            decreases self.count - i,
        {
            assert(rows.take(i + 1).drop_last() =~= rows.take(i as int));
            let row = self.surfaces[i].unwrap();
            if row.layer == layer {
                seen = seen + 1;
            }
            i += 1;
        }
        assert(rows.take(self.count as int) =~= rows);
        seen
    }
}

impl Default for SurfaceRegistry {
    fn default() -> (r: Self)
        ensures
            r@.rows.len() == 0 && r@.focused is None,
    {
        SurfaceRegistry::new()
    }
}

} // verus!
