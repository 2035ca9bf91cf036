use css_rules::Selector;

fn strings(xs: &[&str]) -> Vec<String> {
    xs.iter().map(|x| x.to_string()).collect()
}

fn sel(ids: &[&str], classes: &[&str], parent: Option<Selector>) -> Selector {
    Selector {
        ids: strings(ids),
        classes: strings(classes),
        parent: parent.map(Box::new),
    }
}

#[test]
pub fn selector() {
    assert_eq!(
        Selector::from("#abc#efg.hi .abc#de#fg"),
        Selector {
            parent: Some(Box::from(Selector {
                ids: vec!["abc".to_string(), "efg".to_string()],
                classes: vec!["hi".to_string()],
                parent: None,
            })),
            classes: vec!["abc".to_string()],
            ids: vec!["de".to_string(), "fg".to_string()],
        }
    );
}

#[test]
fn bare_tag_is_dropped() {
    assert_eq!(Selector::from("x"), sel(&[], &[], None));
}

#[test]
fn descendant_pair() {
    assert_eq!(
        Selector::from("#a .b"),
        sel(&[], &["b"], Some(sel(&["a"], &[], None)))
    );
}

#[test]
fn reading_twice_gives_equal_selectors() {
    let input = "#a.b .c#d e.f";
    assert_eq!(Selector::from(input), Selector::from(input));
}

#[test]
fn interleaved_fragments_keep_scan_order() {
    assert_eq!(
        Selector::from("#a.b#c.d"),
        sel(&["a", "c"], &["b", "d"], None)
    );
}

#[test]
fn chain_has_one_level_per_token() {
    assert_eq!(
        Selector::from("#one .two #three.four"),
        sel(
            &["three"],
            &["four"],
            Some(sel(&[], &["two"], Some(sel(&["one"], &[], None))))
        )
    );
}

#[test]
fn whitespace_runs_and_edges_are_ignored() {
    assert_eq!(
        Selector::from("  \t#a\n\n .b  "),
        sel(&[], &["b"], Some(sel(&["a"], &[], None)))
    );
}

#[test]
fn unicode_whitespace_separates_tokens() {
    assert_eq!(
        Selector::from("#a\u{3000}.b"),
        sel(&[], &["b"], Some(sel(&["a"], &[], None)))
    );
}

#[test]
fn empty_names_are_kept() {
    assert_eq!(Selector::from("#."), sel(&[""], &[""], None));
    assert_eq!(Selector::from("a#"), sel(&[""], &[], None));
}

#[test]
fn tag_before_fragments_is_dropped() {
    assert_eq!(Selector::from("div#main"), sel(&["main"], &[], None));
}

#[test]
fn other_syntax_stays_in_names() {
    assert_eq!(
        Selector::from("#a>b.c:hover"),
        sel(&["a>b"], &["c:hover"], None)
    );
}

#[test]
fn non_ascii_names() {
    assert_eq!(
        Selector::from("#ünï.çödé"),
        sel(&["ünï"], &["çödé"], None)
    );
}

#[test]
fn clone_copies_the_whole_chain() {
    let s = Selector::from("#a.b .c #d");
    let c = s.clone();
    assert_eq!(c, s);
    assert_eq!(c.parent.as_ref().unwrap().classes, strings(&["c"]));
    assert_eq!(c.parent.unwrap().parent.unwrap().ids, strings(&["a"]));
}
