use rusty_rich::console::DynRenderable;
use rusty_rich::layout::{
    ColumnSplitter, Direction, Layout, LayoutNode, NoSplitter, Region, RowSplitter, Splitter,
    LayoutRender, make_layout,
};

#[test]
fn test_region_defaults() {
    let r = Region {
        x: 0,
        y: 0,
        width: 80,
        height: 24,
    };
    assert_eq!(r.width, 80);
    assert_eq!(r.height, 24);
}

#[test]
fn test_layout_single_leaf() {
    let node = LayoutNode::Leaf {
        name: "root".into(),
        renderable: None,
        size: None,
    };
    let layout = Layout::new(node);
    let regions = layout.compute(80, 24);
    assert_eq!(regions.len(), 1);
    assert_eq!(regions[0].0, "root");
}

#[test]
fn test_layout_horizontal_split() {
    let children = vec![
        LayoutNode::Leaf {
            name: "left".into(),
            renderable: None,
            size: None,
        },
        LayoutNode::Leaf {
            name: "right".into(),
            renderable: None,
            size: None,
        },
    ];
    let node = LayoutNode::split(Direction::Horizontal, children);
    let layout = Layout::new(node);
    let regions = layout.compute(80, 24);
    assert_eq!(regions.len(), 2);
    assert!(regions[0].1.x < regions[1].1.x);
}

#[test]
fn test_layout_vertical_split() {
    let children = vec![
        LayoutNode::Leaf {
            name: "top".into(),
            renderable: None,
            size: None,
        },
        LayoutNode::Leaf {
            name: "bottom".into(),
            renderable: None,
            size: None,
        },
    ];
    let node = LayoutNode::split(Direction::Vertical, children);
    let layout = Layout::new(node);
    let regions = layout.compute(80, 24);
    assert_eq!(regions.len(), 2);
    assert!(regions[0].1.y < regions[1].1.y);
}

#[test]
fn test_split_method() {
    let mut layout = Layout::new(LayoutNode::Leaf {
        name: "root".into(),
        renderable: None,
        size: None,
    });
    layout.split(Direction::Horizontal);
    // Root should now be a Split
    match &layout.root {
        LayoutNode::Split { children, .. } => {
            assert_eq!(children.len(), 2);
        }
        _ => panic!("expected Split after split()"),
    }
}

#[test]
fn test_unsplit_method() {
    let mut layout = Layout::new(LayoutNode::Leaf {
        name: "root".into(),
        renderable: None,
        size: None,
    });
    layout.split(Direction::Horizontal);
    layout.unsplit();
    // Root should be back to a Leaf (the original)
    match &layout.root {
        LayoutNode::Leaf { .. } => {} // ok
        _ => panic!("expected Leaf after unsplit()"),
    }
}

#[test]
fn test_split_column() {
    let mut layout = Layout::new(LayoutNode::Leaf {
        name: "root".into(),
        renderable: None,
        size: None,
    });
    layout.split_column();
    match &layout.root {
        LayoutNode::Split { direction, .. } => {
            assert_eq!(*direction, Direction::Horizontal);
        }
        _ => panic!("expected Horizontal split"),
    }
}

#[test]
fn test_split_row() {
    let mut layout = Layout::new(LayoutNode::Leaf {
        name: "root".into(),
        renderable: None,
        size: None,
    });
    layout.split_row();
    match &layout.root {
        LayoutNode::Split { direction, .. } => {
            assert_eq!(*direction, Direction::Vertical);
        }
        _ => panic!("expected Vertical split"),
    }
}

#[test]
fn test_children_method() {
    let mut layout = Layout::new(LayoutNode::Leaf {
        name: "root".into(),
        renderable: None,
        size: None,
    });
    // Before split, children is empty
    assert!(layout.children().is_empty());
    layout.split(Direction::Horizontal);
    assert_eq!(layout.children().len(), 2);
}

#[test]
fn test_tree_method() {
    let layout = Layout::new(LayoutNode::Leaf {
        name: "root".into(),
        renderable: None,
        size: None,
    });
    match layout.tree() {
        LayoutNode::Leaf { name, .. } => assert_eq!(name, "root"),
        _ => panic!("expected Leaf"),
    }
}

#[test]
fn test_renderable_none_for_empty_layout() {
    let layout = Layout::new(LayoutNode::Leaf {
        name: "root".into(),
        renderable: None,
        size: None,
    });
    // No renderable registered
    assert!(layout.renderable().is_none());
}

#[test]
fn test_from_renderable() {
    let layout = Layout::from_renderable("main", "hello world");
    assert!(layout.get("main").is_some());
}

#[test]
fn test_get_and_update() {
    let mut layout = Layout::from_renderable("main", "initial");
    assert!(layout.get("main").is_some());

    let updated = layout.update("main", "updated");
    assert!(updated);

    // Non-existent key
    let not_found = layout.update("nonexistent", "nope");
    assert!(!not_found);
}

#[test]
fn test_map() {
    let mut layout = Layout::from_renderable("main", "hello");
    layout.map(|_r| DynRenderable::new("mapped"));
    assert!(layout.get("main").is_some());
}

#[test]
fn test_add_split_to_leaf() {
    let mut layout = Layout::from_renderable("main", "content");
    let id = layout.add_split("second", 2);
    // Root should now be a Split
    match &layout.root {
        LayoutNode::Split {
            children, sizes, ..
        } => {
            assert_eq!(children.len(), 2);
            assert_eq!(*sizes, vec![1, 2]);
            assert_eq!(id, 1);
        }
        _ => panic!("expected Split after add_split"),
    }
}

#[test]
fn test_no_splitter() {
    let splitter = NoSplitter;
    let children = vec![
        LayoutNode::Leaf {
            name: "a".into(),
            renderable: None,
            size: None,
        },
        LayoutNode::Leaf {
            name: "b".into(),
            renderable: None,
            size: None,
        },
    ];
    let region = Region {
        x: 0,
        y: 0,
        width: 80,
        height: 24,
    };
    let regions = splitter.split(&region, &children, &Direction::Horizontal);
    assert_eq!(regions.len(), 2);
    assert_eq!(regions[0].width, 40);
    assert_eq!(regions[1].width, 40);
}

#[test]
fn test_column_splitter() {
    let splitter = ColumnSplitter;
    let children = vec![
        LayoutNode::Leaf {
            name: "a".into(),
            renderable: None,
            size: None,
        },
        LayoutNode::Leaf {
            name: "b".into(),
            renderable: None,
            size: None,
        },
        LayoutNode::Leaf {
            name: "c".into(),
            renderable: None,
            size: None,
        },
    ];
    let region = Region {
        x: 0,
        y: 0,
        width: 90,
        height: 24,
    };
    let regions = splitter.split(&region, &children, &Direction::Vertical);
    assert_eq!(regions.len(), 3);
    assert_eq!(regions[0].width, 30);
    assert_eq!(regions[1].x, 30);
    assert_eq!(regions[2].x, 60);
}

#[test]
fn test_row_splitter() {
    let splitter = RowSplitter;
    let children = vec![
        LayoutNode::Leaf {
            name: "a".into(),
            renderable: None,
            size: None,
        },
        LayoutNode::Leaf {
            name: "b".into(),
            renderable: None,
            size: None,
        },
    ];
    let region = Region {
        x: 0,
        y: 0,
        width: 80,
        height: 24,
    };
    let regions = splitter.split(&region, &children, &Direction::Horizontal);
    assert_eq!(regions.len(), 2);
    assert_eq!(regions[0].height, 12);
    assert_eq!(regions[1].y, 12);
}

#[test]
fn test_splitters_method() {
    let layout = Layout::new(LayoutNode::Leaf {
        name: "root".into(),
        renderable: None,
        size: None,
    });
    assert!(layout.splitters().is_empty());
}

#[test]
fn test_compute_with_fixed_size() {
    let node = LayoutNode::Leaf {
        name: "fixed".into(),
        renderable: None,
        size: Some(10),
    };
    let layout = Layout::new(node);
    let regions = layout.compute(80, 24);
    assert_eq!(regions[0].1.width, 10);
    assert_eq!(regions[0].1.height, 10);
}

#[test]
fn test_compute_ratio_regions_exact() {
    let node = LayoutNode::split(
        Direction::Horizontal,
        vec![
            LayoutNode::Leaf { name: "a".into(), renderable: None, size: None },
            LayoutNode::Leaf { name: "b".into(), renderable: None, size: None },
        ],
    )
    .sizes(vec![1, 3]);
    let layout = Layout::new(node);
    let regions = layout.compute(81, 10);
    assert_eq!(regions.len(), 2);
    assert_eq!(regions[0].1, Region { x: 0, y: 0, width: 20, height: 10 });
    assert_eq!(regions[1].1, Region { x: 21, y: 0, width: 60, height: 10 });
}

#[test]
fn test_compute_one_region_per_leaf_in_order() {
    let inner = LayoutNode::split(
        Direction::Vertical,
        vec![
            LayoutNode::Leaf { name: "b".into(), renderable: None, size: None },
            LayoutNode::Leaf { name: "c".into(), renderable: None, size: None },
        ],
    );
    let node = LayoutNode::split(
        Direction::Horizontal,
        vec![LayoutNode::Leaf { name: "a".into(), renderable: None, size: None }, inner],
    );
    let layout = Layout::new(node);
    let names: Vec<String> = layout.compute(40, 20).into_iter().map(|(n, _)| n).collect();
    assert_eq!(names, vec!["a", "b", "c"]);
}

#[test]
fn test_layout_render_tree_lines() {
    let node = LayoutNode::split(
        Direction::Horizontal,
        vec![
            LayoutNode::Leaf { name: "left".into(), renderable: None, size: None },
            LayoutNode::Leaf { name: "right".into(), renderable: Some("x".into()), size: Some(3) },
        ],
    );
    let r: LayoutRender = make_layout(node);
    let lines = r.tree_lines();
    let texts: Vec<String> = lines.iter().map(|l| l[0].text.clone()).collect();
    assert_eq!(
        texts,
        vec![
            "🔀 Split(Horizontal)",
            "├── 📄 left",
            "│   📄 left",
            "└── 📄 right [size=3]",
            "    📄 right [size=3]",
        ]
    );
}

#[test]
fn test_find_node_and_remove_splitter() {
    let mut layout = Layout::new(LayoutNode::split(
        Direction::Vertical,
        vec![LayoutNode::Leaf { name: "x".into(), renderable: None, size: None }],
    ));
    assert!(layout.find_node("x").is_some());
    assert!(layout.find_node("y").is_none());
    layout.set_splitter("x", RowSplitter);
    assert_eq!(layout.splitters().len(), 1);
    assert!(layout.remove_splitter("x"));
    assert!(!layout.remove_splitter("x"));
}

#[test]
fn test_split_row_with_places_children_side_by_side() {
    let mut l = Layout::new(LayoutNode::Leaf { name: "root".into(), renderable: None, size: None });
    l.split_row_with(vec![("a", "x"), ("b", "y")]);
    match &l.root {
        LayoutNode::Split { direction, .. } => assert_eq!(*direction, Direction::Horizontal),
        _ => panic!("expected a split"),
    }
    let regions = l.compute(80, 24);
    assert_eq!(regions.len(), 2);
    assert!(regions[0].1.x < regions[1].1.x);
    assert_eq!(regions[0].1.y, regions[1].1.y);
}

#[test]
fn test_split_column_with_stacks_children() {
    let mut l = Layout::new(LayoutNode::Leaf { name: "root".into(), renderable: None, size: None });
    l.split_column_with(vec![("a", "x"), ("b", "y")]);
    let regions = l.compute(80, 24);
    assert_eq!(regions[0].1.x, regions[1].1.x);
    assert!(regions[0].1.y < regions[1].1.y);
}

#[test]
fn test_compute_zero_sizes_count_as_equal_shares() {
    let a = LayoutNode::Leaf { name: "a".into(), renderable: None, size: None };
    let b = LayoutNode::Leaf { name: "b".into(), renderable: None, size: None };
    let l = Layout::new(LayoutNode::split(Direction::Vertical, vec![a, b]).sizes(vec![0, 0]));
    let regions = l.compute(80, 24);
    assert_eq!(regions.len(), 2);
    assert_eq!(regions[0].0, "a");
    assert_eq!(regions[1].0, "b");
    assert_eq!((regions[0].1.x, regions[0].1.y, regions[0].1.width, regions[0].1.height), (0, 0, 80, 12));
    assert_eq!((regions[1].1.x, regions[1].1.y, regions[1].1.width, regions[1].1.height), (0, 12, 80, 12));
}
