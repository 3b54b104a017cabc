use buddies_ai::substitution::resolve;
use buddies_ai::text::{chars_of, replace};

fn pairs(list: &[(&str, &str)]) -> Vec<(String, String)> {
    list.iter().map(|(k, v)| (k.to_string(), v.to_string())).collect()
}

#[test]
fn nothing_known_leaves_the_template() {
    let none = pairs(&[]);
    assert_eq!(resolve("Describe {city}.", &none, &none), "Describe {city}.");
    assert_eq!(resolve("", &none, &none), "");
    assert_eq!(resolve("{}{_output}", &none, &none), "{}{_output}");
}

#[test]
fn an_input_replaces_its_placeholder() {
    let inputs = pairs(&[("city", "Paris")]);
    assert_eq!(resolve("Describe {city}.", &inputs, &pairs(&[])), "Describe Paris.");
}

#[test]
fn a_recorded_output_replaces_its_placeholder() {
    let memory = pairs(&[("task1", "Hello")]);
    assert_eq!(resolve("Continue: {task1_output}", &pairs(&[]), &memory), "Continue: Hello");
}

#[test]
fn an_unknown_placeholder_stays() {
    let inputs = pairs(&[("city", "Paris")]);
    let memory = pairs(&[("task1", "Hello")]);
    assert_eq!(resolve("Say {unknown}", &inputs, &memory), "Say {unknown}");
    assert_eq!(resolve("Say {task2_output}", &inputs, &memory), "Say {task2_output}");
    assert_eq!(
        resolve("{city} {unknown} {task1_output}", &inputs, &memory),
        "Paris {unknown} Hello"
    );
}

#[test]
fn every_occurrence_is_replaced() {
    let inputs = pairs(&[("a", "1"), ("b", "2")]);
    assert_eq!(resolve("{a}{b}{a} {b}", &inputs, &pairs(&[])), "121 2");
}

#[test]
fn an_input_name_is_no_output_placeholder() {
    let inputs = pairs(&[("task1", "in")]);
    let memory = pairs(&[("task1", "out")]);
    assert_eq!(resolve("{task1} {task1_output}", &inputs, &memory), "in out");
    assert_eq!(resolve("{task1_output}", &inputs, &pairs(&[])), "{task1_output}");
    assert_eq!(resolve("{task1}", &pairs(&[]), &memory), "{task1}");
}

#[test]
fn bindings_are_applied_first_to_last() {
    let forward = pairs(&[("a", "{b}"), ("b", "x")]);
    assert_eq!(resolve("{a}", &forward, &pairs(&[])), "x");
    let backward = pairs(&[("b", "x"), ("a", "{b}")]);
    assert_eq!(resolve("{a}", &backward, &pairs(&[])), "{b}");
}

#[test]
fn inputs_are_applied_before_outputs() {
    let inputs = pairs(&[("which", "{t_output}")]);
    let memory = pairs(&[("t", "done")]);
    assert_eq!(resolve("{which}", &inputs, &memory), "done");
    let inputs = pairs(&[("name", "late")]);
    let memory = pairs(&[("t", "{name}")]);
    assert_eq!(resolve("{t_output}", &inputs, &memory), "{name}");
}

#[test]
fn the_first_of_two_bindings_of_a_name_wins() {
    let inputs = pairs(&[("a", "1"), ("a", "2")]);
    assert_eq!(resolve("{a}", &inputs, &pairs(&[])), "1");
}

#[test]
fn replace_goes_from_left_to_right() {
    assert_eq!(replace("aaa", "aa", "b"), "ba");
    assert_eq!(replace("aaaa", "aa", "b"), "bb");
    assert_eq!(replace("abab", "ab", "ba"), "baba");
    assert_eq!(replace("xaxa", "a", "aa"), "xaaxaa");
}

#[test]
fn replace_at_the_ends_and_of_the_whole() {
    assert_eq!(replace("{x} and {x}", "{x}", "y"), "y and y");
    assert_eq!(replace("{x}", "{x}", ""), "");
    assert_eq!(replace("{x}", "{x}", "{x}"), "{x}");
    assert_eq!(replace("ab", "abc", "z"), "ab");
    assert_eq!(replace("", "a", "z"), "");
}

#[test]
fn replace_with_an_empty_pattern_changes_nothing() {
    assert_eq!(replace("abc", "", "z"), "abc");
    assert_eq!(replace("", "", "z"), "");
}

#[test]
fn replace_counts_characters_not_bytes() {
    assert_eq!(replace("né {ville} été", "{ville}", "Besançon"), "né Besançon été");
    assert_eq!(replace("ééé", "éé", "e"), "eé");
    assert_eq!(replace("日本語", "本", "-"), "日-語");
}

#[test]
fn chars_of_gives_each_character() {
    assert_eq!(chars_of("aé日"), vec!['a', 'é', '日']);
    assert_eq!(chars_of(""), Vec::<char>::new());
}
