use easy_imgui_core::glconfig::{choose_config, ConfigScore};

fn score(samples: u8, depth: u8, stencil: u8) -> ConfigScore {
    ConfigScore { samples, depth, stencil }
}

#[test]
fn chooses_least_extras() {
    let scores = vec![score(4, 24, 8), score(0, 24, 8), score(0, 0, 8), score(0, 0, 8), score(0, 16, 0)];
    assert_eq!(choose_config(&scores), 2);
}

#[test]
fn chooses_first_of_equals() {
    let scores = vec![score(1, 2, 3), score(1, 2, 3)];
    assert_eq!(choose_config(&scores), 0);
    assert_eq!(choose_config(&vec![score(9, 9, 9)]), 0);
}

#[test]
fn samples_weigh_most() {
    let scores = vec![score(2, 0, 0), score(1, 255, 255)];
    assert_eq!(choose_config(&scores), 1);
    let scores = vec![score(0, 8, 0), score(0, 0, 255), score(0, 0, 1)];
    assert_eq!(choose_config(&scores), 2);
}
