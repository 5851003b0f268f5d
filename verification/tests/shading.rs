use raytracing::scene::LightKind;
use raytracing::tracer::{light_terms, shadow_query};

#[test]
fn ambient_light_needs_no_shadow_ray() {
    assert_eq!(shadow_query(LightKind::Ambient), None);
}

#[test]
fn point_light_casts_a_bounded_ray_toward_its_position() {
    let q = shadow_query(LightKind::Point).unwrap();
    assert!(q.toward_position);
    assert!(q.bounded);
}

#[test]
fn directional_light_casts_an_unbounded_ray_along_its_direction() {
    let q = shadow_query(LightKind::Directional).unwrap();
    assert!(!q.toward_position);
    assert!(!q.bounded);
}

#[test]
fn occluded_light_contributes_nothing() {
    let t = light_terms(true, true, true, true);
    assert!(!t.diffuse);
    assert!(!t.specular);
}

#[test]
fn diffuse_needs_the_normal_to_face_the_light() {
    let t = light_terms(false, true, false, false);
    assert!(t.diffuse);
    assert!(!t.specular);

    let t = light_terms(false, false, true, true);
    assert!(!t.diffuse);
    assert!(t.specular);
}

#[test]
fn specular_needs_both_a_specular_surface_and_a_facing_reflection() {
    let t = light_terms(false, true, true, true);
    assert!(t.diffuse);
    assert!(t.specular);

    let t = light_terms(false, true, false, true);
    assert!(!t.specular);

    let t = light_terms(false, true, true, false);
    assert!(!t.specular);
}
