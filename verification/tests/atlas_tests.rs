use roguelike::atlas::paths::{atlas_paths, saved_resource_path, texture_path};
use roguelike::atlas::plan::{frames_to_add, trailing_frames, unused_animations, used_animations};
use roguelike::atlas::reader::parse_atlas;
use roguelike::atlas::text::parse_i32;
use roguelike::atlas::values::parse_values;
use roguelike::atlas::{Atlas, AtlasError, AttrKey};

const SAMPLE: &str = "sprites.png\n\tsize: 64, 64\nwalk_00_0\n\tbounds: 0, 0, 32, 16\n\toffsets: 0, 0, 32, 16\nwalk_00_1\n\tbounds: 32, 0, 32, 16\n\toffsets: 1, 2, 34, 18\n\npage2.png\nstand_00_3\n\tbounds: 0, 0, 8, 8\n\toffsets: 0, 0, 8, 8\nwalk_00_4\n\toffsets: 0, 0, 8, 8\n\tbounds: 1.5, 2, 8, 8";

fn values(v: &[Vec<u8>; 4]) -> Vec<String> {
    v.iter().map(|b| String::from_utf8(b.clone()).unwrap()).collect()
}

fn read(text: &str) -> Result<Atlas, AtlasError> {
    parse_atlas(text)
}

#[test]
fn sample_atlas_reads() {
    let a = read(SAMPLE).unwrap();
    assert_eq!(a.textures, vec![b"sprites.png".to_vec(), b"page2.png".to_vec()]);
    assert_eq!(a.frames.len(), 4);
    let f = &a.frames[0];
    assert_eq!((f.page, f.anim_name.as_slice(), f.index), (0, &b"walk_00"[..], 0));
    assert_eq!(f.attrs.len(), 2);
    assert_eq!(f.attrs[0].key, AttrKey::Bounds);
    assert_eq!(values(&f.attrs[0].values), vec!["0", "0", "32", "16"]);
    assert_eq!(f.attrs[1].key, AttrKey::Offsets);
    let f = &a.frames[1];
    assert_eq!((f.page, f.anim_name.as_slice(), f.index), (0, &b"walk_00"[..], 1));
    assert_eq!(values(&f.attrs[1].values), vec!["1", "2", "34", "18"]);
    let f = &a.frames[2];
    assert_eq!((f.page, f.anim_name.as_slice(), f.index), (1, &b"stand_00"[..], 3));
    let f = &a.frames[3];
    assert_eq!((f.page, f.anim_name.as_slice(), f.index), (1, &b"walk_00"[..], 4));
    assert_eq!(f.attrs[0].key, AttrKey::Offsets);
    assert_eq!(values(&f.attrs[1].values), vec!["1.5", "2", "8", "8"]);
}

#[test]
fn crlf_lines_read_like_lf_lines() {
    let crlf = SAMPLE.replace('\n', "\r\n");
    let a = read(&crlf).unwrap();
    let b = read(SAMPLE).unwrap();
    assert_eq!(a.textures, b.textures);
    assert_eq!(a.frames.len(), b.frames.len());
    for (x, y) in a.frames.iter().zip(b.frames.iter()) {
        assert_eq!(x.anim_name, y.anim_name);
        assert_eq!(x.index, y.index);
        assert_eq!(x.page, y.page);
    }
}

#[test]
fn trailing_newline_is_not_an_extra_line() {
    let text = "p.png\nrun_1\n\tbounds: 0, 0, 1, 1\n\toffsets: 0, 0, 1, 1\n";
    let a = read(text).unwrap();
    assert_eq!(a.frames.len(), 1);
    assert_eq!(a.frames[0].anim_name, b"run".to_vec());
}

#[test]
fn underscores_inside_animation_names() {
    let text = "p.png\nwalk_left_fast_12\n\tbounds: 0, 0, 1, 1\n\toffsets: 0, 0, 1, 1";
    let a = read(text).unwrap();
    assert_eq!(a.frames[0].anim_name, b"walk_left_fast".to_vec());
    assert_eq!(a.frames[0].index, 12);
}

#[test]
fn atlas_errors() {
    let ok_attrs = "\n\tbounds: 0, 0, 1, 1\n\toffsets: 0, 0, 1, 1";
    let cases: Vec<(String, AtlasError)> = vec![
        ("p.png\n\nrun_1".to_string(), AtlasError::BadLineStart),
        ("p.png\n\u{e9}run_1".to_string(), AtlasError::BadLineStart),
        (format!("p.png\nrun_1{ok_attrs}\n\u{e9}x"), AtlasError::BadLineStart),
        (format!("p.png\nrun1{ok_attrs}"), AtlasError::MissingUnderscore),
        (format!("p.png\nrun_x{ok_attrs}"), AtlasError::BadFrameIndex),
        (format!("p.png\nrun_{ok_attrs}"), AtlasError::BadFrameIndex),
        (format!("p.png\nrun_99999999999{ok_attrs}"), AtlasError::BadFrameIndex),
        (format!("p.png\n_3{ok_attrs}"), AtlasError::EmptyAnimationName),
        (format!("p.png\nrun_-1{ok_attrs}"), AtlasError::FrameIndexOutOfRange),
        (format!("p.png\nrun_2147483647{ok_attrs}"), AtlasError::FrameIndexOutOfRange),
        ("p.png\nrun_1\n\tbounds 0, 0, 1, 1".to_string(), AtlasError::MissingKeySeparator),
        ("p.png\nrun_1\n\tbounds: 0, 0, 1, 1, 5".to_string(), AtlasError::TooManyValues),
        ("p.png\nrun_1\n\tbounds: 0, 0, 1".to_string(), AtlasError::TooFewValues),
        ("p.png\nrun_1\n\trotate: 0, 0, 1, 1".to_string(), AtlasError::UnknownKey),
        ("p.png\nrun_1\n\toffsets: 0, 0, 1, 1".to_string(), AtlasError::MissingBounds),
        ("p.png\nrun_1\n\tbounds: 0, 0, 1, 1".to_string(), AtlasError::MissingOffsets),
        ("p.png\nrun_1\n\tbounds: 0, 0, 1, 1\nrun_2".to_string(), AtlasError::MissingOffsets),
        ("p.png".to_string(), AtlasError::UnfinishedFrame),
        (format!("p.png\nrun_1{ok_attrs}\n\n"), AtlasError::UnfinishedFrame),
        ("".to_string(), AtlasError::UnfinishedFrame),
    ];
    for (text, err) in cases {
        assert_eq!(read(&text).err(), Some(err), "{text:?}");
    }
}

#[test]
fn page_header_lines_with_tabs_are_skipped() {
    let text = "p.png\n\tformat: RGBA8888\n\tfilter: Linear,Linear\nrun_0\n\tbounds: 0, 0, 1, 1\n\toffsets: 0, 0, 1, 1";
    let a = read(text).unwrap();
    assert_eq!(a.frames.len(), 1);
}

#[test]
fn integers_like_from_str() {
    let cases: [(&str, Option<i32>); 12] = [
        ("0", Some(0)),
        ("12", Some(12)),
        ("+7", Some(7)),
        ("-7", Some(-7)),
        ("007", Some(7)),
        ("2147483647", Some(i32::MAX)),
        ("-2147483648", Some(i32::MIN)),
        ("2147483648", None),
        ("", None),
        ("-", None),
        ("1a", None),
        ("+-1", None),
    ];
    for (s, v) in cases {
        assert_eq!(parse_i32(s.as_bytes()), v, "{s:?}");
        assert_eq!(s.parse::<i32>().ok(), v, "{s:?}");
    }
}

#[test]
fn values_split_like_str_split() {
    let v = parse_values(b"1, 2, 3, 4").unwrap();
    assert_eq!(values(&v), vec!["1", "2", "3", "4"]);
    let v = parse_values(b"1,2, , 4, ").unwrap();
    assert_eq!(values(&v), vec!["1,2", "", "4", ""]);
    assert_eq!("1,2, , 4, ".split(", ").count(), 4);
    let v = parse_values(b", , , ").unwrap();
    assert_eq!(values(&v), vec!["", "", "", ""]);
    assert_eq!(parse_values(b"1, 2, 3, 4, 5").err(), Some(AtlasError::TooManyValues));
    assert_eq!(parse_values(b"1, 2").err(), Some(AtlasError::TooFewValues));
}

#[test]
fn used_animations_keep_the_largest_index() {
    let a = read(SAMPLE).unwrap();
    let u = used_animations(&a);
    assert_eq!(u.names, vec![b"walk_00".to_vec(), b"stand_00".to_vec()]);
    assert_eq!(u.max_indices, vec![4, 3]);
}

#[test]
fn unused_animations_are_the_others() {
    let a = read(SAMPLE).unwrap();
    let u = used_animations(&a);
    let existing = vec![b"default".to_vec(), b"walk_00".to_vec(), b"old".to_vec(), b"stand_00".to_vec()];
    assert_eq!(unused_animations(&existing, &u), vec![b"default".to_vec(), b"old".to_vec()]);
}

#[test]
fn frame_counts() {
    assert_eq!(frames_to_add(3, 0), 4);
    assert_eq!(frames_to_add(3, 4), 0);
    assert_eq!(frames_to_add(3, 10), 0);
    assert_eq!(frames_to_add(0, 0), 1);
    assert_eq!(trailing_frames(4, 10), Some((5, 10)));
    assert_eq!(trailing_frames(4, 5), None);
    assert_eq!(trailing_frames(4, 2), None);
}

#[test]
fn import_paths() {
    let p = atlas_paths("res://assets/sprites/hero.atlas").unwrap();
    assert_eq!(p.directory, b"res://assets/sprites/".to_vec());
    assert_eq!(p.sprite_frames, b"res://assets/sprites/hero.sprite_frames.tres".to_vec());
    assert_eq!(texture_path(&p, b"hero.png"), b"res://assets/sprites/hero.png".to_vec());
    assert_eq!(atlas_paths("res://hero.png").err(), Some(AtlasError::NotAnAtlasPath));
    assert_eq!(atlas_paths("atlas").err(), Some(AtlasError::NotAnAtlasPath));
    assert_eq!(atlas_paths("hero.atlas").err(), Some(AtlasError::NoDirectory));
    assert_eq!(saved_resource_path(".godot/imported/hero.atlas-1234"), b".godot/imported/hero.atlas-1234.res".to_vec());
}

#[test]
fn read_frames_are_complete_and_paged_in_order() {
    let a = read(SAMPLE).unwrap();
    let mut last_page = 0;
    for (k, f) in a.frames.iter().enumerate() {
        assert!(f.page < a.textures.len());
        assert!(f.index >= 0 && f.index < i32::MAX);
        assert!(!f.anim_name.is_empty());
        assert!(f.attrs.iter().any(|x| x.key == AttrKey::Bounds));
        assert!(f.attrs.iter().any(|x| x.key == AttrKey::Offsets));
        if k == 0 {
            assert_eq!(f.page, 0);
        } else {
            assert!(f.page == last_page || f.page == last_page + 1);
        }
        last_page = f.page;
    }
    assert_eq!(last_page, a.textures.len() - 1);
}

#[test]
fn trailing_frames_keep_used_frames() {
    let a = read(SAMPLE).unwrap();
    let u = used_animations(&a);
    for f in &a.frames {
        let i = u.names.iter().position(|n| *n == f.anim_name).unwrap();
        let (start, _) = trailing_frames(u.max_indices[i], i32::MAX).unwrap();
        assert!(f.index < start);
    }
}

#[test]
fn non_ascii_names_stay_utf8() {
    let text = "p\u{e1}gina.png\nw\u{e4}lk_\u{fc}p_2\n\tbounds: 1\u{b5}, 0, 1, 1\n\toffsets: 0, 0, 1, 1";
    let a = read(text).unwrap();
    assert_eq!(String::from_utf8(a.textures[0].clone()).unwrap(), "p\u{e1}gina.png");
    assert_eq!(String::from_utf8(a.frames[0].anim_name.clone()).unwrap(), "w\u{e4}lk_\u{fc}p");
    assert_eq!(values(&a.frames[0].attrs[0].values)[0], "1\u{b5}");
    let p = atlas_paths("res://\u{f1}/\u{fc}.atlas").unwrap();
    assert_eq!(String::from_utf8(p.directory.clone()).unwrap(), "res://\u{f1}/");
    assert_eq!(String::from_utf8(p.sprite_frames.clone()).unwrap(), "res://\u{f1}/\u{fc}.sprite_frames.tres");
    assert_eq!(String::from_utf8(texture_path(&p, "\u{e9}.png".as_bytes())).unwrap(), "res://\u{f1}/\u{e9}.png");
}
