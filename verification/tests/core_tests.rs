use easy_imgui_core::generation::{merge_generation, next_generation, remove_generation, CallbackList};
use easy_imgui_core::text::{
    chars_of, contains_chars, lex_compare, text_post_edit, text_pre_edit, Order,
};
use easy_imgui_core::shader::{gl_program_from_prefixed_source, gl_program_from_source, ShaderError};
use easy_imgui_core::atlas::{
    PendingAtlas,
    add_custom_rect_at, glyph_ranges, rect_rows, store_rect_rows, CustomRectIndex, FontAtlas, FontAtlasPtr, FontId,
    PixelRect,
};
use easy_imgui_core::ui::{
    Pushable,
    ColorId, FloatFormat, IntoColor, SizeCallbackData, StylePtr, Viewport, ViewportFlags,
};
use easy_imgui_core::idler::MainWindowIdler;

#[test]
fn generation_round_trip() {
    let id = merge_generation(5, 3);
    assert_eq!(remove_generation(id, 3), Some(5));
    // Only the low 8 bits of the generation are kept.
    assert_eq!(remove_generation(id, 3 + 256), Some(5));
    assert_eq!(id >> (usize::BITS - 8), 3);
}

#[test]
fn generation_stale_is_refused() {
    let id = merge_generation(7, 10);
    assert_eq!(remove_generation(id, 11), None);
    assert_eq!(remove_generation(id, 9), None);
}

#[test]
fn generation_zero() {
    assert_eq!(merge_generation(0, 0), 0);
    assert_eq!(remove_generation(0, 0), Some(0));
    assert_eq!(remove_generation(0, 1), None);
}

#[test]
fn generation_largest_index() {
    let mask = (1usize << (usize::BITS - 8)) - 1;
    let id = merge_generation(mask, 255);
    assert_eq!(id, usize::MAX);
    assert_eq!(remove_generation(id, 255), Some(mask));
}

#[test]
fn text_edit_round_trip() {
    let mut s = String::from("héllo");
    text_pre_edit(&mut s);
    assert_eq!(s, "héllo\0");
    text_post_edit(&mut s);
    assert_eq!(s, "héllo");
}

#[test]
fn text_post_edit_cuts_at_first_nul() {
    let mut s = String::from("ab\0cd\0");
    text_post_edit(&mut s);
    assert_eq!(s, "ab");
    let mut e = String::from("\0");
    text_post_edit(&mut e);
    assert_eq!(e, "");
}

#[test]
fn lex_order_by_code_point() {
    let a = chars_of("abc");
    let b = chars_of("abd");
    let c = chars_of("ab");
    assert_eq!(lex_compare(&a, &b), Order::Less);
    assert_eq!(lex_compare(&b, &a), Order::Greater);
    assert_eq!(lex_compare(&c, &a), Order::Less);
    assert_eq!(lex_compare(&a, &a), Order::Equal);
    assert_eq!(lex_compare(&chars_of("Z"), &chars_of("a")), Order::Less);
    assert_eq!(Order::Less.reverse(), Order::Greater);
}

#[test]
fn substring_search() {
    let hay = chars_of("readme.txt");
    assert!(contains_chars(&hay, &chars_of("me.t")));
    assert!(contains_chars(&hay, &chars_of("")));
    assert!(contains_chars(&hay, &chars_of("readme.txt")));
    assert!(!contains_chars(&hay, &chars_of("readme.txt2")));
    assert!(!contains_chars(&hay, &chars_of("xt.")));
}


fn build(v: &str, f: &str, g: Option<&str>) -> Result<(String, String, Option<String>), String> {
    Ok((v.to_string(), f.to_string(), g.map(|x| x.to_string())))
}

#[test]
fn shader_split_two_stages() {
    let src = "vertex code\n### fragment\nfrag code\n";
    let r = gl_program_from_source(src, build).unwrap();
    assert_eq!(r.0, "vertex code\n");
    assert_eq!(r.1, "\nfrag code\n");
    assert_eq!(r.2, None);
}

#[test]
fn shader_split_three_stages() {
    let src = "v\n###f\nfrag\n###g\ngeom";
    let r = gl_program_from_source(src, build).unwrap();
    assert_eq!(r.0, "v\n");
    assert_eq!(r.1, "\nfrag\n");
    assert_eq!(r.2, Some("\ngeom".to_string()));
}

#[test]
fn shader_split_errors() {
    let r = gl_program_from_source("no marker here", build);
    assert_eq!(r, Err(ShaderError::MarkerNotFound));
    let r = gl_program_from_source("v\n### no newline", build);
    assert_eq!(r, Err(ShaderError::MarkerNotValid));
    let r = gl_program_from_source("v\n###\nf\n### geom without newline", build);
    assert_eq!(r, Err(ShaderError::MarkerNotValid));
}

#[test]
fn shader_build_error() {
    let r: Result<(), ShaderError<&str>> =
        gl_program_from_source("v###\nf", |_, _, _| Err("compile failed"));
    assert_eq!(r, Err(ShaderError::Build("compile failed")));
}

#[test]
fn atlas_defaults() {
    assert_eq!(FontId::default(), FontId(0));
    assert_eq!(CustomRectIndex::default(), CustomRectIndex(-1));
}

#[test]
fn atlas_texture_and_rects() {
    let atlas = FontAtlas {
        ptr: FontAtlasPtr { tex_id: 42, tex_width: 512, tex_height: 256, custom_rects: vec![(1u16, 2u16), (3, 4)] },
    };
    let p = atlas.atlas();
    assert_eq!(p.texture_id(), 42);
    assert_eq!(p.texture_size(), [512, 256]);
    assert_eq!(p.get_custom_rect(CustomRectIndex(1)), (3, 4));
}

#[test]
fn atlas_custom_rect_slots() {
    let mut rects: Vec<Option<&str>> = Vec::new();
    add_custom_rect_at(&mut rects, 2, "c");
    assert_eq!(rects, vec![None, None, Some("c")]);
    add_custom_rect_at(&mut rects, 0, "a");
    assert_eq!(rects, vec![Some("a"), None, Some("c")]);
    add_custom_rect_at(&mut rects, 2, "d");
    assert_eq!(rects, vec![Some("a"), None, Some("d")]);
}

#[test]
fn style_colors() {
    let mut style = StylePtr { colors: vec![[0u8, 0, 0, 255], [255, 255, 255, 255]] };
    assert_eq!(style.color(ColorId(1)), [255, 255, 255, 255]);
    style.set_color(ColorId(0), [10, 20, 30, 40]);
    assert_eq!(style.color(ColorId(0)), [10, 20, 30, 40]);
    assert_eq!(style.color(ColorId(1)), [255, 255, 255, 255]);
}

#[test]
fn size_callback_data() {
    let mut d = SizeCallbackData { pos: (1, 2), current_size: (3, 4), desired_size: (5, 6) };
    assert_eq!(d.pos(), (1, 2));
    assert_eq!(d.current_size(), (3, 4));
    assert_eq!(d.desired_size(), (5, 6));
    d.set_desired_size((7, 8));
    assert_eq!(d.desired_size(), (7, 8));
    assert_eq!(d.pos(), (1, 2));
}

#[test]
fn viewport_values() {
    let v = Viewport { raw_flags: 0b0100_0000_0000_0000_0101 | (1 << 10), pos: (0, 0), size: (800, 600), work_pos: (0, 20), work_size: (800, 580) };
    assert_eq!(v.flags(), ViewportFlags { bits: 0b101 | (1 << 10) });
    assert!(v.flags().contains(ViewportFlags { bits: 1 << 10 }));
    assert!(!v.flags().contains(ViewportFlags { bits: 1 << 5 }));
    assert_eq!(v.size(), (800, 600));
    assert_eq!(v.pos(), (0, 0));
    assert_eq!(v.work_pos(), (0, 20));
    assert_eq!(v.work_size(), (800, 580));
    assert_eq!(ViewportFlags::from_bits_truncate(-1), ViewportFlags { bits: 0x3fff });
}

#[test]
fn float_formats() {
    assert_eq!(FloatFormat::G.format_text(), "%g");
    assert_eq!(FloatFormat::F(0).format_text(), "%.0f");
    assert_eq!(FloatFormat::F(3).format_text(), "%.3f");
    assert_eq!(FloatFormat::F(12).format_text(), "%.12f");
    assert_eq!(FloatFormat::F(4294967295).format_text(), "%.4294967295f");
}

#[test]
fn packed_color() {
    let c: [u8; 4] = [1, 2, 3, 4];
    let v = c.color();
    assert_eq!(v, u32::from_ne_bytes([1, 2, 3, 4]));
    assert!(v == 0x04030201 || v == 0x01020304);
}

#[test]
fn idler_counts_frames() {
    let mut idler = MainWindowIdler::default();
    assert!(idler.has_to_render());
    idler.set_idle_frame_count(2);
    idler.set_idle_time(0);
    idler.incr_frame();
    assert!(idler.has_to_render_at(5));
    idler.incr_frame();
    assert!(!idler.has_to_render_at(5));
    assert!(!idler.has_to_render());
    idler.ping_user_input();
    assert!(idler.has_to_render());
}

#[test]
fn idler_counts_time() {
    let mut idler = MainWindowIdler::default();
    idler.set_idle_frame_count(0);
    assert!(idler.has_to_render_at(999_999_999));
    assert!(!idler.has_to_render_at(1_000_000_000));
    idler.ping_user_input_at(2_000_000_000);
    assert!(idler.has_to_render_at(2_500_000_000));
    assert!(!idler.has_to_render_at(3_000_000_000));
    idler.set_idle_time(2_000_000_000);
    assert!(idler.has_to_render_at(3_999_999_999));
    assert!(idler.has_to_render_at(1_000));
}

#[test]
fn idler_redraws_while_mouse_down() {
    let mut idler = MainWindowIdler::default();
    idler.set_idle_frame_count(0);
    idler.set_idle_time(0);
    assert!(!idler.redraw_when_idle_at(false, 10));
    assert!(idler.redraw_when_idle_at(true, 10));
    assert!(idler.redraw_when_idle(true));
    assert!(!idler.redraw_when_idle(false));
    idler.set_idle_frame_count(1);
    assert!(idler.redraw_when_idle(false));
    assert!(idler.redraw_when_idle_at(false, 10));
}

#[test]
fn idler_saturates() {
    let mut idler = MainWindowIdler::default();
    idler.set_idle_frame_count(0);
    idler.set_idle_time(0);
    for _ in 0..3 {
        idler.incr_frame();
    }
    assert!(!idler.has_to_render_at(0));
}

fn texture(w: usize, h: usize) -> Vec<[u8; 4]> {
    (0..w * h).map(|i| [i as u8, (i / 256) as u8, 0, 255]).collect()
}

#[test]
fn rect_rows_copies_the_rectangle() {
    let tex = texture(4, 3);
    let rect = PixelRect { x: 1, y: 1, width: 2, height: 2 };
    let rows = rect_rows(&tex, 4, rect);
    assert_eq!(rows.len(), 2);
    assert_eq!(rows[0], vec![tex[5], tex[6]]);
    assert_eq!(rows[1], vec![tex[9], tex[10]]);
}

#[test]
fn store_rect_rows_writes_only_the_rectangle() {
    let tex = texture(4, 3);
    let rect = PixelRect { x: 2, y: 0, width: 2, height: 3 };
    let mut out = tex.clone();
    let rows = vec![vec![[1, 1, 1, 1]; 2]; 3];
    store_rect_rows(&mut out, 4, rect, &rows);
    for p in 0..12 {
        if p % 4 >= 2 {
            assert_eq!(out[p], [1, 1, 1, 1]);
        } else {
            assert_eq!(out[p], tex[p]);
        }
    }
}

#[test]
fn store_of_copied_rows_keeps_texture() {
    let tex = texture(5, 4);
    let rect = PixelRect { x: 0, y: 2, width: 5, height: 2 };
    let rows = rect_rows(&tex, 5, rect);
    let mut out = tex.clone();
    store_rect_rows(&mut out, 5, rect, &rows);
    assert_eq!(out, tex);
    let empty = PixelRect { x: 3, y: 1, width: 0, height: 0 };
    assert!(rect_rows(&tex, 5, empty).is_empty());
}

#[test]
fn glyph_ranges_are_closed_by_zero_pair() {
    assert_eq!(glyph_ranges(vec![]), None);
    assert_eq!(glyph_ranges(vec![[0x20, 0x7f], [0x400, 0x4ff]]), Some(vec![[0x20, 0x7f], [0x400, 0x4ff], [0, 0]]));
}

#[test]
fn callbacks_found_by_id_within_their_frame() {
    let mut frame: CallbackList<&str> = CallbackList::new(7);
    let a = frame.push_callback("first");
    let b = frame.push_callback("second");
    assert_ne!(a, b);
    assert_eq!(frame.callback(a), Some(&"first"));
    assert_eq!(frame.callback(b), Some(&"second"));
    assert_eq!(frame.generation(), 7);
    let next: CallbackList<&str> = CallbackList::new(8);
    assert_eq!(next.callback(a), None);
    assert_eq!(a, merge_generation(0, 7));
}

#[test]
fn generation_advances_and_wraps() {
    assert_eq!(next_generation(3), 4);
    assert_eq!(next_generation(usize::MAX), 0);
    for g in [0usize, 254, 255, usize::MAX - 1, usize::MAX] {
        let id = merge_generation(9, g);
        assert_eq!(remove_generation(id, g), Some(9));
        assert_eq!(remove_generation(id, next_generation(next_generation(g))), None);
    }
}

#[test]
fn shader_split_with_prefix() {
    let src = "v\n###f\nfrag\n###g\ngeom";
    let r = gl_program_from_prefixed_source(Some("#version 300 es\n"), src, build).unwrap();
    assert_eq!(r.0, "#version 300 es\nv\n");
    assert_eq!(r.1, "#version 300 es\nfrag\n");
    assert_eq!(r.2, Some("#version 300 es\ngeom".to_string()));
    let r = gl_program_from_prefixed_source(None, "a###\nb", build).unwrap();
    assert_eq!(r, ("a".to_string(), "b".to_string(), None));
    assert_eq!(gl_program_from_prefixed_source(None, "abc", build), Err(ShaderError::MarkerNotFound));
    assert_eq!(gl_program_from_prefixed_source(None, "a###", build), Err(ShaderError::MarkerNotValid));
}

#[test]
fn pending_atlas_is_taken_once() {
    let mut p = PendingAtlas::new();
    assert!(p.take_pending());
    assert!(!p.take_pending());
    p.invalidate_font_atlas();
    assert!(p.take_pending());
    assert!(!p.take_pending());
}

struct Recorder<'a> {
    name: &'static str,
    log: &'a std::cell::RefCell<Vec<String>>,
}

impl Pushable for Recorder<'_> {
    fn push(&self) {
        self.log.borrow_mut().push(format!("push {}", self.name));
    }
    fn pop(&self) {
        self.log.borrow_mut().push(format!("pop {}", self.name));
    }
}

#[test]
fn pushables_pop_in_reverse_order() {
    let log = std::cell::RefCell::new(Vec::new());
    let pair = (Recorder { name: "a", log: &log }, Some(Recorder { name: "b", log: &log }));
    pair.push();
    pair.pop();
    let list = vec![Recorder { name: "c", log: &log }, Recorder { name: "d", log: &log }];
    list.push();
    list.pop();
    let none: Option<Recorder> = None;
    none.push();
    none.pop();
    assert_eq!(
        log.into_inner(),
        vec!["push a", "push b", "pop b", "pop a", "push c", "push d", "pop d", "pop c"]
    );
}
