use clipboard_sync::dedup::filter_kept;
use clipboard_sync::dedup::judge_same;
use clipboard_sync::dedup::select_canonical;
use clipboard_sync::endpoint::Endpoint;
use clipboard_sync::endpoint::WlrClipboard;
use clipboard_sync::endpoint::X11Clipboard;

/// A mock world: endpoint `i` reads and writes the backing store
/// `wiring[i]`, so two endpoints wired to the same store are one
/// physical clipboard reachable two ways.
struct MockWorld {
    stores: Vec<String>,
    wiring: Vec<usize>,
}

impl MockWorld {
    fn new(wiring: &[usize], store_count: usize) -> MockWorld {
        MockWorld {
            stores: vec![String::new(); store_count],
            wiring: wiring.to_vec(),
        }
    }

    fn set(&mut self, endpoint: usize, value: &str) {
        let store = self.wiring[endpoint];
        self.stores[store] = value.to_string();
    }

    fn get(&self, endpoint: usize) -> String {
        self.stores[self.wiring[endpoint]].clone()
    }

    /// Runs the mutual-echo probe between endpoints `i` and `j` exactly
    /// as the engine's driver does, handing the observations to the
    /// verified judgement.
    fn probe_same(&mut self, names: &[&str], i: usize, j: usize) -> bool {
        let d1 = names[i].to_string();
        let d2 = names[j].to_string();
        self.set(i, &d1);
        let echo1 = self.get(j);
        let echo2 = if echo1 == d1 {
            self.set(j, &d2);
            Some(self.get(i))
        } else {
            None
        };
        judge_same(&d1, &echo1, &d2, &echo2)
    }

    fn sameness_matrix(&mut self, names: &[&str]) -> Vec<Vec<bool>> {
        let n = names.len();
        let mut matrix = vec![vec![false; n]; n];
        for i in 0..n {
            for j in 0..n {
                if i < j {
                    matrix[i][j] = self.probe_same(names, i, j);
                }
            }
        }
        matrix
    }
}

#[test]
fn judge_same_requires_both_directions() {
    let d1 = "wayland-0".to_string();
    let d2 = ":0".to_string();
    // First direction failed: probe stopped, not the same clipboard.
    assert!(!judge_same(&d1, &"something else".to_string(), &d2, &None));
    // First direction echoed, second did not.
    assert!(!judge_same(
        &d1,
        &d1.clone(),
        &d2,
        &Some("stale".to_string())
    ));
    // Both directions echoed: the same clipboard.
    assert!(judge_same(&d1, &d1.clone(), &d2, &Some(d2.clone())));
}

#[test]
fn equivalent_pair_keeps_the_earlier_in_either_order() {
    // Two endpoints wired to one store: whichever is discovered first
    // survives.
    let names = ["wayland-0", ":0"];
    let mut world = MockWorld::new(&[0, 0], 1);
    let matrix = world.sameness_matrix(&names);
    assert_eq!(select_canonical(&matrix), vec![true, false]);

    let swapped = [":0", "wayland-0"];
    let mut world = MockWorld::new(&[0, 0], 1);
    let matrix = world.sameness_matrix(&swapped);
    assert_eq!(select_canonical(&matrix), vec![true, false]);
}

#[test]
fn dedup_is_idempotent_on_the_canonical_set() {
    // Four endpoints over two stores; rerunning selection on the
    // canonical set removes nothing.
    let names = ["wayland-0", "wayland-1", ":0", ":1"];
    let wiring = [0, 1, 0, 1];
    let mut world = MockWorld::new(&wiring, 2);
    let matrix = world.sameness_matrix(&names);
    let keep = select_canonical(&matrix);
    assert_eq!(keep, vec![true, true, false, false]);

    let kept_indices: Vec<usize> = (0..4).filter(|&i| keep[i]).collect();
    let survivor_names: Vec<&str> = kept_indices.iter().map(|&i| names[i]).collect();
    let survivor_wiring: Vec<usize> = kept_indices.iter().map(|&i| wiring[i]).collect();
    let mut world = MockWorld::new(&survivor_wiring, 2);
    let matrix = world.sameness_matrix(&survivor_names);
    let keep_again = select_canonical(&matrix);
    assert_eq!(keep_again, vec![true; kept_indices.len()]);
}

#[test]
fn shared_store_collapses_three_candidates_to_two() {
    // Endpoints 0 and 1 are wired to the same backing store, endpoint 2
    // to its own: the canonical set has two endpoints, not three.
    let names = ["wayland-0", ":0", "wayland-1"];
    let mut world = MockWorld::new(&[0, 0, 1], 2);
    let matrix = world.sameness_matrix(&names);
    let keep = select_canonical(&matrix);

    let candidates = vec![
        Endpoint::Wlr(WlrClipboard {
            display: "wayland-0".to_string(),
        }),
        Endpoint::X11(X11Clipboard::new(":0".to_string())),
        Endpoint::Wlr(WlrClipboard {
            display: "wayland-1".to_string(),
        }),
    ];
    let canonical = filter_kept(candidates, &keep);
    assert_eq!(canonical.len(), 2);
    assert_eq!(canonical[0].display(), "wayland-0");
    assert_eq!(canonical[1].display(), "wayland-1");
}

#[test]
fn distinct_stores_keep_everything() {
    let names = ["wayland-0", ":0", ":1"];
    let mut world = MockWorld::new(&[0, 1, 2], 3);
    let matrix = world.sameness_matrix(&names);
    assert_eq!(select_canonical(&matrix), vec![true, true, true]);
}
