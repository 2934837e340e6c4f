use lnshm::names::{find_available_name, is_taken, rand_str};

#[test]
fn rand_str_has_the_length_asked_for() {
    for size in [0usize, 1, 2, 7, 31, 64] {
        assert_eq!(rand_str(size).chars().count(), size);
    }
}

#[test]
fn rand_str_is_made_of_letters_before_z() {
    let s = rand_str(4096);
    assert!(s.chars().all(|c| ('a'..'z').contains(&c)), "{}", s);
}

#[test]
fn rand_str_draws_more_than_one_letter() {
    let s = rand_str(256);
    let first = s.chars().next().unwrap();
    assert!(s.chars().any(|c| c != first));
}

#[test]
fn is_taken_looks_for_the_whole_name() {
    let taken = vec![String::from("ab"), String::from("c")];
    assert!(is_taken(&String::from("ab"), &taken));
    assert!(is_taken(&String::from("c"), &taken));
    assert!(!is_taken(&String::from("a"), &taken));
    assert!(!is_taken(&String::from("abc"), &taken));
    assert!(!is_taken(&String::from("c"), &Vec::new()));
}

#[test]
fn find_available_name_in_an_empty_directory_is_one_letter_under_it() {
    let path = find_available_name("/mnt/ram", &Vec::new()).expect("a free name");
    let name = path.strip_prefix("/mnt/ram/").expect("a path under the directory");
    assert_eq!(name.chars().count(), 1);
    assert!(name.chars().all(|c| ('a'..'z').contains(&c)));
}

#[test]
fn find_available_name_never_returns_a_taken_name() {
    let mut taken: Vec<String> = ('a'..'z').map(|c| c.to_string()).collect();
    taken.push(String::from("zz"));
    for _ in 0..200 {
        let path = find_available_name("/mnt/ram", &taken).expect("a free name");
        let name = path.strip_prefix("/mnt/ram/").expect("a path under the directory");
        assert!(!taken.iter().any(|t| t == name), "{}", name);
        assert_eq!(name.chars().count(), 2);
    }
}

#[test]
fn find_available_name_ends_in_a_crowded_directory() {
    let mut taken: Vec<String> = Vec::new();
    for a in 'a'..'z' {
        taken.push(a.to_string());
        for b in 'a'..'z' {
            taken.push(format!("{}{}", a, b));
        }
    }
    let path = find_available_name("root", &taken).expect("a free name");
    let name = path.strip_prefix("root/").expect("a path under the directory");
    assert_eq!(name.chars().count(), 3);
}

#[test]
fn find_available_name_joins_as_paths_are_joined() {
    let path = find_available_name("/mnt/ram/", &Vec::new()).expect("a free name");
    assert!(path.starts_with("/mnt/ram/"));
    assert_eq!(path.chars().count(), "/mnt/ram/".len() + 1);
    let bare = find_available_name("", &Vec::new()).expect("a free name");
    assert_eq!(bare.chars().count(), 1);
}
