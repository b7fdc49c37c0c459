use aether::error::{FormatError, GltfError};
use aether::gltf::{AccessorComponentType, AccessorElementType};
use aether::material::Material;
use aether::math::{choose_extent, Size};
use aether::queues::{PartialQueueFamilies, QueueFamilies};

#[test]
fn component_type_table_is_exact() {
    let table: [(u64, usize); 6] = [
        (5120, 1),
        (5121, 1),
        (5122, 2),
        (5123, 2),
        (5125, 4),
        (5126, 4),
    ];
    for (code, size) in table {
        let t = AccessorComponentType::from_code(code).unwrap();
        assert_eq!(t.get_size(), size);
    }
}

#[test]
fn undefined_component_codes_rejected() {
    for code in [0u64, 5119, 5124, 5127, 9999] {
        match AccessorComponentType::from_code(code) {
            Err(GltfError::Format(FormatError::BadComponentType(c))) => assert_eq!(c, code),
            other => panic!("expected BadComponentType for {}, got {:?}", code, other.err()),
        }
    }
}

#[test]
fn element_type_table_is_exact() {
    let table: [(&str, usize); 7] = [
        ("SCALAR", 1),
        ("VEC2", 2),
        ("VEC3", 3),
        ("VEC4", 4),
        ("MAT2", 4),
        ("MAT3", 9),
        ("MAT4", 16),
    ];
    for (name, size) in table {
        let t = AccessorElementType::from_name(&name.to_string()).unwrap();
        assert_eq!(t.get_size(), size);
    }
}

#[test]
fn undefined_element_names_rejected() {
    for name in ["", "scalar", "VEC1", "VEC5", "MAT1", "Mat4"] {
        match AccessorElementType::from_name(&name.to_string()) {
            Err(GltfError::Format(FormatError::BadElementType(t))) => assert_eq!(t, name),
            other => panic!("expected BadElementType for {}, got {:?}", name, other.err()),
        }
    }
}

#[test]
fn queue_families_to_vec_in_order() {
    let q = QueueFamilies { graphics: 3, present: 5 };
    assert_eq!(q.to_vec(), vec![3, 5]);
}

#[test]
fn unique_families_collapse_shared_family() {
    let distinct = QueueFamilies { graphics: 3, present: 5 };
    let set = distinct.get_unique_families();
    assert_eq!(set.len(), 2);
    assert!(set.contains(&3) && set.contains(&5));
    let shared = QueueFamilies { graphics: 4, present: 4 };
    let set = shared.get_unique_families();
    assert_eq!(set.len(), 1);
    assert!(set.contains(&4));
}

#[test]
fn partial_families_complete_only_with_both() {
    let mut p = PartialQueueFamilies::new();
    assert!(!p.is_complete());
    p.graphics = Some(0);
    assert!(!p.is_complete());
    p.present = Some(1);
    assert!(p.is_complete());
}

#[test]
fn try_from_complete_families() {
    let p = PartialQueueFamilies { graphics: Some(2), present: Some(7) };
    let q = QueueFamilies::try_from(p).unwrap();
    assert_eq!(q.graphics, 2);
    assert_eq!(q.present, 7);
}

#[test]
fn try_from_incomplete_families_names_the_missing() {
    let p = PartialQueueFamilies { graphics: None, present: Some(7) };
    let e = QueueFamilies::try_from(p).unwrap_err();
    assert_eq!(e.message(), "Missing graphics queue");
    let p = PartialQueueFamilies { graphics: None, present: None };
    let e = QueueFamilies::try_from(p).unwrap_err();
    assert_eq!(e.message(), "Missing graphics queueMissing present queue");
}

#[test]
fn material_and_size_construct() {
    let m = Material::new();
    let _again = m.clone();
    let s = Size { width: 800u32, height: 600u32 };
    assert_eq!(s.width, 800);
    assert_eq!(s.height, 600);
}

#[test]
fn choose_extent_prefers_fixed_current_extent() {
    let current = Size { width: 1280u32, height: 720u32 };
    let window = Size { width: 999u32, height: 999u32 };
    let min = Size { width: 1u32, height: 1u32 };
    let max = Size { width: 4096u32, height: 4096u32 };
    let r = choose_extent(&current, &window, &min, &max);
    assert_eq!(r.width, 1280);
    assert_eq!(r.height, 720);
}

#[test]
fn choose_extent_clamps_window_size() {
    let current = Size { width: u32::MAX, height: u32::MAX };
    let window = Size { width: 100u32, height: 9000u32 };
    let min = Size { width: 200u32, height: 200u32 };
    let max = Size { width: 4096u32, height: 4096u32 };
    let r = choose_extent(&current, &window, &min, &max);
    assert_eq!(r.width, 200);
    assert_eq!(r.height, 4096);
}

#[test]
fn note_family_records_capabilities() {
    let mut p = PartialQueueFamilies::new();
    p.note_family(0, true, false);
    assert_eq!(p.graphics, Some(0));
    assert_eq!(p.present, None);
    p.note_family(1, false, true);
    assert_eq!(p.graphics, Some(0));
    assert_eq!(p.present, Some(1));
    p.note_family(2, true, true);
    assert_eq!(p.graphics, Some(2));
    assert_eq!(p.present, Some(2));
}
