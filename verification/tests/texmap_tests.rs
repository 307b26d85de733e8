use easy_imgui_core::texmap::{
    clamp_texture_limit, native_tex_id, native_tex_name, native_texture_created, native_texture_step, texture_created, texture_step, update_region, TexAction,
    TexStatus, TextureMap,
};

#[test]
fn texture_map_reuses_freed_slots() {
    let mut m: TextureMap<u32> = TextureMap::new();
    assert_eq!(m.map_tex(10), 0);
    assert_eq!(m.map_tex(11), 1);
    assert_eq!(m.map_tex(12), 2);
    assert_eq!(m.unmap_tex(1), Some(11));
    assert_eq!(m.delete_tex(1), Some(11));
    assert_eq!(m.unmap_tex(1), None);
    assert_eq!(m.delete_tex(1), None);
    assert_eq!(m.map_tex(13), 1);
    assert_eq!(m.unmap_tex(1), Some(13));
    assert_eq!(m.unmap_tex(3), None);
    assert_eq!(m.unmap_tex(u64::MAX), None);
    assert_eq!(m.delete_tex(7), None);
    assert_eq!(m.map_tex(14), 3);
}

#[test]
fn native_texture_names() {
    assert_eq!(native_tex_id(5), 5);
    assert_eq!(native_tex_name(native_tex_id(5)), Some(5));
    assert_eq!(native_tex_name(0), None);
    assert_eq!(native_tex_name(1 << 32), None);
    assert_eq!(native_tex_name((1 << 32) + 7), Some(7));
}

#[test]
fn texture_lifecycle() {
    let mut m: TextureMap<u32> = TextureMap::new();
    assert_eq!(texture_step(TexStatus::WantCreate, 0, &mut m), (TexStatus::WantCreate, 0, TexAction::Create));
    let (st, id) = texture_created(&mut m, 77);
    assert_eq!((st, id), (TexStatus::Ready, 0));
    assert_eq!(texture_step(TexStatus::WantUpdates, id, &mut m), (TexStatus::Ready, id, TexAction::Update(77)));
    assert_eq!(texture_step(TexStatus::Ready, id, &mut m), (TexStatus::Ready, id, TexAction::Nothing));
    assert_eq!(texture_step(TexStatus::WantDestroy, id, &mut m), (TexStatus::Destroyed, 0, TexAction::Destroy(77)));
    assert_eq!(m.unmap_tex(id), None);
    assert_eq!(texture_step(TexStatus::WantDestroy, 9, &mut m), (TexStatus::Destroyed, 9, TexAction::Nothing));
}

#[test]
fn texture_regions_and_limits() {
    assert_eq!(update_region(3, 2, 5, 100, 4), ((3 + 2 * 100) * 4, 4 * 5 * 100));
    assert_eq!(update_region(0, 0, 0, 10, 4), (0, 0));
    assert_eq!(clamp_texture_limit(0, 0, 4096), (4096, 4096));
    assert_eq!(clamp_texture_limit(8192, 1024, 4096), (4096, 4096));
    assert_eq!(clamp_texture_limit(2048, 1024, 4096), (2048, 1024));
}

#[test]
fn native_texture_lifecycle() {
    assert_eq!(native_texture_step(TexStatus::WantCreate, 0), (TexStatus::WantCreate, 0, TexAction::Create));
    let (st, id) = native_texture_created(42);
    assert_eq!((st, id), (TexStatus::Ready, 42));
    assert_eq!(native_texture_step(TexStatus::WantUpdates, id), (TexStatus::Ready, 42, TexAction::Update(42)));
    assert_eq!(native_texture_step(TexStatus::Ready, id), (TexStatus::Ready, 42, TexAction::Nothing));
    assert_eq!(native_texture_step(TexStatus::WantDestroy, id), (TexStatus::Destroyed, 0, TexAction::Destroy(42)));
    assert_eq!(native_texture_step(TexStatus::WantDestroy, 0), (TexStatus::Destroyed, 0, TexAction::Nothing));
    assert_eq!(native_texture_step(TexStatus::Destroyed, 0), (TexStatus::Destroyed, 0, TexAction::Nothing));
}
