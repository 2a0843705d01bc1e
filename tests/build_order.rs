use ecg::graph::{resolve_build_order, Image, ImageSet, ResolveError};

fn image(secure: bool, deps: &[&str]) -> Image {
    Image::new(
        secure,
        String::from("firmware"),
        deps.iter().map(|d| d.to_string()).collect(),
    )
}

fn set(entries: Vec<(&str, Image)>) -> ImageSet {
    let mut s = ImageSet::new();
    for (n, i) in entries {
        s.insert(n.to_string(), i);
    }
    s
}

fn position(order: &[String], name: &str) -> usize {
    order.iter().position(|n| n == name).unwrap()
}

#[test]
fn three_images_build_dependencies_first() {
    let images = set(vec![
        ("A", image(false, &[])),
        ("B", image(false, &[])),
        ("C", image(false, &["A", "B"])),
    ]);
    let order = resolve_build_order(&images).unwrap();
    assert_eq!(order.len(), 3);
    assert_eq!(order[2], "C");
    assert!(order == vec!["A", "B", "C"] || order == vec!["B", "A", "C"]);
}

#[test]
fn resolving_twice_gives_the_same_order() {
    let images = set(vec![
        ("app", image(false, &["secure", "lib"])),
        ("lib", image(false, &["secure"])),
        ("secure", image(true, &[])),
        ("tool", image(false, &[])),
    ]);
    let first = resolve_build_order(&images).unwrap();
    let second = resolve_build_order(&images).unwrap();
    assert_eq!(first, second);
}

#[test]
fn transitive_dependencies_come_first() {
    let images = set(vec![
        ("top", image(false, &["mid"])),
        ("mid", image(false, &["base"])),
        ("base", image(false, &[])),
    ]);
    let order = resolve_build_order(&images).unwrap();
    assert_eq!(order, vec!["base", "mid", "top"]);
    assert!(position(&order, "base") < position(&order, "top"));
}

#[test]
fn every_dependency_precedes_its_dependent() {
    let images = set(vec![
        ("e", image(false, &["d", "a"])),
        ("d", image(false, &["b", "c"])),
        ("c", image(false, &["a"])),
        ("b", image(false, &["a"])),
        ("a", image(false, &[])),
    ]);
    let order = resolve_build_order(&images).unwrap();
    assert_eq!(order.len(), 5);
    for name in ["a", "b", "c", "d", "e"] {
        let img = images.get(&name.to_string()).unwrap();
        for dep in img.dependencies.iter() {
            assert!(position(&order, dep) < position(&order, name));
        }
    }
}

#[test]
fn two_images_depending_on_each_other_are_cyclic() {
    let images = set(vec![("A", image(false, &["B"])), ("B", image(false, &["A"]))]);
    match resolve_build_order(&images) {
        Err(ResolveError::CyclicDependency { images: mut stuck }) => {
            stuck.sort();
            assert_eq!(stuck, vec!["A", "B"]);
        }
        other => panic!("expected a cycle, got {:?}", other),
    }
}

#[test]
fn an_image_depending_on_itself_is_cyclic() {
    let images = set(vec![("solo", image(false, &["solo"])), ("free", image(false, &[]))]);
    match resolve_build_order(&images) {
        Err(ResolveError::CyclicDependency { images: stuck }) => {
            assert_eq!(stuck, vec!["solo"]);
        }
        other => panic!("expected a cycle, got {:?}", other),
    }
}

#[test]
fn images_behind_a_cycle_are_reported_too() {
    let images = set(vec![
        ("x", image(false, &["y"])),
        ("y", image(false, &["x"])),
        ("z", image(false, &["x"])),
        ("w", image(false, &[])),
    ]);
    match resolve_build_order(&images) {
        Err(ResolveError::CyclicDependency { images: mut stuck }) => {
            stuck.sort();
            assert_eq!(stuck, vec!["x", "y", "z"]);
        }
        other => panic!("expected a cycle, got {:?}", other),
    }
}

#[test]
fn unknown_dependency_is_reported() {
    let images = set(vec![("A", image(false, &[])), ("B", image(false, &["A", "missing"]))]);
    match resolve_build_order(&images) {
        Err(ResolveError::UnknownDependency { image, dependency }) => {
            assert_eq!(image, "B");
            assert_eq!(dependency, "missing");
        }
        other => panic!("expected an unknown dependency, got {:?}", other),
    }
}

#[test]
fn empty_set_has_empty_order() {
    let images = ImageSet::new();
    assert_eq!(resolve_build_order(&images).unwrap(), Vec::<String>::new());
}

#[test]
fn secure_images_are_detected() {
    let plain = set(vec![("A", image(false, &[]))]);
    assert!(!plain.any_secure());
    let mixed = set(vec![("A", image(false, &[])), ("S", image(true, &[]))]);
    assert!(mixed.any_secure());
    assert!(!ImageSet::new().any_secure());
}

#[test]
fn build_arguments_list_dependency_directories() {
    let deps = vec![String::from("/t/A"), String::from("/t/B")];
    let args = Image::build_args(&String::from("\"/t/C\""), &deps, true);
    assert_eq!(
        args,
        vec![
            "-Zunstable-options",
            "--config",
            "env.FC_LIB_DIR=\"/t/C\"",
            "--release",
            "--config",
            "target.thumbv8m.main-none-eabihf.rustflags=[\"-L/t/A\"]",
            "--config",
            "target.thumbv8m.main-none-eabihf.rustflags=[\"-L/t/B\"]",
        ]
    );
    let plain = Image::build_args(&String::from("\"/t/A\""), &Vec::new(), false);
    assert_eq!(plain, vec!["-Zunstable-options", "--config", "env.FC_LIB_DIR=\"/t/A\""]);
}

#[test]
fn inserting_a_name_again_replaces_the_image() {
    let mut images = set(vec![("A", image(false, &[])), ("B", image(false, &["A"]))]);
    images.insert(String::from("B"), image(true, &[]));
    assert_eq!(images.len(), 2);
    let b = images.get(&String::from("B")).unwrap();
    assert!(b.secure);
    assert!(b.dependencies.is_empty());
    assert!(images.get(&String::from("C")).is_none());
}
