//! The bounded surface registry: a full complement registers, the bound is a
//! wall, a duplicate is refused, and focusing an unknown surface changes
//! nothing.

use aegis::compositor::{
    CompositorError, MAX_SURFACES, SurfaceGeometry, SurfaceId, SurfaceLayer, SurfaceRegistry,
    SurfaceRequest, UNIT_MEMORY_MAX_MIB, WaylandSurface,
};
use aegis::compositor::Label;

type Fallible = Result<(), String>;

const SHELL: &str = "forum-desktop-shell";
const OVERLAY: &str = "hestia-pip-media-player";
const SHELL_PID: u32 = 1001;

fn label(raw: &str) -> Result<Label, String> {
    Label::parse(raw).map_err(|e| e.message())
}

fn shell_request(id: u32) -> Result<SurfaceRequest, String> {
    Ok(SurfaceRequest {
        id: SurfaceId::new(id),
        title: label(SHELL)?,
        geometry: SurfaceGeometry::new(1920, 1080),
        layer: SurfaceLayer::Top,
        pid: SHELL_PID,
    })
}

fn scaffold_registry() -> Result<SurfaceRegistry, String> {
    let mut registry = SurfaceRegistry::new();
    registry
        .register(shell_request(1)?)
        .map_err(|e| e.message())?;
    registry
        .register(SurfaceRequest {
            id: SurfaceId::new(2),
            title: label(OVERLAY)?,
            geometry: SurfaceGeometry::new(480, 270),
            layer: SurfaceLayer::Overlay,
            pid: 1002,
        })
        .map_err(|e| e.message())?;
    Ok(registry)
}

fn filled_registry(count: usize) -> Result<SurfaceRegistry, String> {
    let mut registry = SurfaceRegistry::new();
    for index in 0..count {
        let id = u32::try_from(index).unwrap_or(0).saturating_add(1);
        registry
            .register(shell_request(id)?)
            .map_err(|e| e.message())?;
    }
    Ok(registry)
}

#[test]
fn the_registry_accepts_two_hundred_and_fifty_six_surfaces() -> Fallible {
    let registry = filled_registry(MAX_SURFACES)?;
    assert_eq!(registry.count(), MAX_SURFACES);
    assert_eq!(MAX_SURFACES, 256);
    assert!(!registry.is_empty());
    assert_eq!(registry.focused(), None);
    Ok(())
}

#[test]
fn a_registered_row_reads_back() -> Fallible {
    let registry = scaffold_registry()?;
    let row: WaylandSurface = registry
        .get(SurfaceId::new(1))
        .ok_or("the registry must hold the surface it registered")?;
    let fields = (
        row.id,
        row.title.text(),
        row.geometry,
        row.layer,
        row.pid,
        row.focused,
    );
    assert_eq!(
        fields,
        (
            SurfaceId::new(1),
            SHELL.to_owned(),
            SurfaceGeometry::new(1920, 1080),
            SurfaceLayer::Top,
            SHELL_PID,
            false,
        )
    );
    Ok(())
}

#[test]
fn focusing_a_surface_returns_the_row_that_holds_it() -> Fallible {
    let mut registry = scaffold_registry()?;
    let shell = SurfaceId::new(1);
    let focused = registry.focus(shell).map_err(|e| e.message())?;
    assert_eq!(focused.id, shell);
    assert_eq!(focused.pid, SHELL_PID);
    assert!(focused.focused);
    assert_eq!(registry.focused(), Some(shell));
    let other = registry
        .get(SurfaceId::new(2))
        .ok_or("the overlay must still be held")?;
    assert!(!other.focused);
    Ok(())
}

#[test]
fn the_layers_are_counted_and_ordered() -> Fallible {
    let registry = scaffold_registry()?;
    assert_eq!(registry.layer_count(SurfaceLayer::Top), 1);
    assert_eq!(registry.layer_count(SurfaceLayer::Overlay), 1);
    assert_eq!(registry.layer_count(SurfaceLayer::Background), 0);
    assert_eq!(registry.layer_count(SurfaceLayer::Bottom), 0);
    let indices: Vec<u32> = SurfaceLayer::ALL.iter().map(|l| l.index()).collect();
    assert_eq!(indices, vec![0, 1, 2, 3]);
    assert!(SurfaceLayer::Overlay.is_admission_gate());
    assert!(!SurfaceLayer::Top.is_admission_gate());
    assert_eq!(SurfaceLayer::Background.name(), "background");
    Ok(())
}

#[test]
fn the_unit_memory_ceiling_is_recorded() {
    assert_eq!(UNIT_MEMORY_MAX_MIB, 256);
}

#[test]
fn the_two_hundred_and_fifty_seventh_surface_is_refused() -> Fallible {
    let mut registry = filled_registry(MAX_SURFACES)?;
    let raw = u32::try_from(MAX_SURFACES)
        .unwrap_or(u32::MAX)
        .saturating_add(1);
    let refusal = registry.register(shell_request(raw)?);
    assert_eq!(
        refusal,
        Err(CompositorError::SurfaceRegistryFull { max: MAX_SURFACES })
    );
    assert_eq!(registry.count(), MAX_SURFACES);
    Ok(())
}

#[test]
fn a_duplicate_identifier_is_refused() -> Fallible {
    let mut registry = scaffold_registry()?;
    let refusal = registry.register(shell_request(1)?);
    assert_eq!(refusal, Err(CompositorError::DuplicateSurface { id: 1 }));
    assert_eq!(registry.count(), 2);
    Ok(())
}

#[test]
fn focusing_an_unknown_surface_leaves_the_existing_focus() -> Fallible {
    let mut registry = scaffold_registry()?;
    let shell = SurfaceId::new(1);
    registry.focus(shell).map_err(|e| e.message())?;
    let refusal = registry.focus(SurfaceId::new(99));
    assert_eq!(refusal, Err(CompositorError::UnknownSurface { id: 99 }));
    assert_eq!(registry.focused(), Some(shell));
    let row = registry.get(shell).ok_or("the shell must still be held")?;
    assert!(row.focused);
    Ok(())
}

#[test]
fn an_empty_registry_holds_nothing() {
    let mut registry = SurfaceRegistry::default();
    assert!(registry.is_empty());
    assert_eq!(registry.count(), 0);
    assert_eq!(registry.focused(), None);
    assert_eq!(registry.get(SurfaceId::new(1)), None);
    assert_eq!(
        registry.focus(SurfaceId::new(1)),
        Err(CompositorError::UnknownSurface { id: 1 })
    );
}

#[test]
fn the_bound_is_exact_at_two_hundred_and_fifty_six() -> Fallible {
    let mut registry = filled_registry(MAX_SURFACES.saturating_sub(1))?;
    assert_eq!(registry.count(), 255);
    let last = u32::try_from(MAX_SURFACES).unwrap_or(u32::MAX);
    let id = registry
        .register(shell_request(last)?)
        .map_err(|e| e.message())?;
    assert_eq!(id, SurfaceId::new(256));
    assert_eq!(registry.count(), MAX_SURFACES);
    let over = last.saturating_add(1);
    assert!(registry.register(shell_request(over)?).is_err());
    Ok(())
}

#[test]
fn a_refused_registration_stores_nothing() -> Fallible {
    let mut registry = filled_registry(MAX_SURFACES)?;
    let raw = u32::try_from(MAX_SURFACES)
        .unwrap_or(u32::MAX)
        .saturating_add(1);
    assert!(registry.register(shell_request(raw)?).is_err());
    assert_eq!(registry.get(SurfaceId::new(raw)), None);
    assert_eq!(registry.count(), MAX_SURFACES);
    Ok(())
}

#[test]
fn moving_focus_clears_the_previous_holder() -> Fallible {
    let mut registry = scaffold_registry()?;
    registry.focus(SurfaceId::new(1)).map_err(|e| e.message())?;
    let overlay = registry.focus(SurfaceId::new(2)).map_err(|e| e.message())?;
    assert!(overlay.focused);
    assert_eq!(registry.focused(), Some(SurfaceId::new(2)));
    let shell = registry.get(SurfaceId::new(1)).ok_or("the shell must be held")?;
    assert!(!shell.focused);
    assert_eq!(
        CompositorError::UnknownSurface { id: 99 }.message(),
        "the surface registry holds no surface 99"
    );
    Ok(())
}
