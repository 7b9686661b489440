use qualirs::detectors::architecture::CyclicDependencyDetector;
use qualirs::domain::FindingConfidence;
use qualirs::evidence::{ItemModel, UseList, UseTree};

fn name(s: &str) -> UseTree {
    UseTree::Name(s.to_string())
}

fn under(parts: &[&str], last: UseTree) -> UseTree {
    parts.iter().rev().fold(last, |tree, p| UseTree::Path { ident: p.to_string(), tree: Box::new(tree) })
}

fn group(trees: Vec<UseTree>) -> UseTree {
    UseTree::Group(trees.into_iter().rev().fold(UseList::Nil, |rest, t| UseList::Cons(Box::new(t), Box::new(rest))))
}

fn use_item(tree: UseTree) -> ItemModel {
    ItemModel::Use { leading_colon: false, tree }
}

#[test]
fn own_child_imports_and_external_dependencies_do_not_prove_cycles() {
    let cases: Vec<(&str, &str, Vec<ItemModel>)> = vec![
        (
            "src/equivocation/mod.rs",
            "mod source; mod target; use crate::{equivocation::{source::Source, target::Target}, finality_base::Engine}; use async_trait::async_trait;",
            vec![
                ItemModel::Declared("source".to_string()),
                ItemModel::Declared("target".to_string()),
                use_item(under(
                    &["crate"],
                    group(vec![
                        under(
                            &["equivocation"],
                            group(vec![under(&["source"], name("Source")), under(&["target"], name("Target"))]),
                        ),
                        under(&["finality_base"], name("Engine")),
                    ]),
                )),
                use_item(under(&["async_trait"], name("async_trait"))),
            ],
        ),
        (
            "src/reward.rs",
            "use crate::reward::Reward; use std::collections::HashMap;",
            vec![
                use_item(under(&["crate", "reward"], name("Reward"))),
                use_item(under(&["std", "collections"], name("HashMap"))),
            ],
        ),
        (
            "src/lib.rs",
            "use alpha::A; use beta::B; use gamma::C; use delta::D; use epsilon::E; use zeta::F; use eta::G;",
            ["alpha", "beta", "gamma", "delta", "epsilon", "zeta", "eta"]
                .iter()
                .zip(["A", "B", "C", "D", "E", "F", "G"])
                .map(|(root, n)| use_item(under(&[root], name(n))))
                .collect(),
        ),
        (
            "src/lib.rs",
            "use crate::{One, Two, Three, Four, Five, Six};",
            vec![use_item(under(
                &["crate"],
                group(["One", "Two", "Three", "Four", "Five", "Six"].iter().map(|n| name(n)).collect()),
            ))],
        ),
        (
            "src/lib.rs",
            "use crate::one::{A, B, C, D, E, F};",
            vec![use_item(under(
                &["crate", "one"],
                group(["A", "B", "C", "D", "E", "F"].iter().map(|n| name(n)).collect()),
            ))],
        ),
    ];
    for (path, source, items) in cases {
        assert!(CyclicDependencyDetector.detect(path, source, &items).is_empty(), "{source}");
    }
    let source = "use crate::{one::A as Renamed, two::B, three::C, four::D, five::E, root_with_underscore::F};";
    let items = vec![use_item(under(
        &["crate"],
        group(vec![
            under(&["one"], UseTree::Rename { ident: "A".to_string(), rename: "Renamed".to_string() }),
            under(&["two"], name("B")),
            under(&["three"], name("C")),
            under(&["four"], name("D")),
            under(&["five"], name("E")),
            under(&["root_with_underscore"], name("F")),
        ]),
    ))];
    let found = CyclicDependencyDetector.detect("src/lib.rs", source, &items);
    assert_eq!(found.len(), 1);
    assert_eq!(found[0].confidence, FindingConfidence::Low);
    assert!(found[0].message.contains("6 crate-relative roots"));
    assert!(found[0].message.contains("unverified"));
}
