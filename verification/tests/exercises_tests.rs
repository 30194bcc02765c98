use deet::linked_list::LinkedList;
use deet::primes::{is_prime, prime_factors};
use deet::strutil::str_eq;
use deet::words::find_in_word;

#[test]
fn generic_list_basics() {
    let mut list: LinkedList<u32> = LinkedList::new();
    assert!(list.is_empty());
    assert_eq!(list.get_size(), 0);
    list.push_front(1);
    list.push_front(2);
    list.push_front(3);
    assert_eq!(list.get_size(), 3);
    assert!(!list.is_empty());
    assert_eq!(list.pop_front(), Some(3));
    assert_eq!(list.pop_front(), Some(2));
    assert_eq!(list.pop_front(), Some(1));
    assert_eq!(list.pop_front(), None);
}

#[test]
fn generic_list_of_strings() {
    let mut list: LinkedList<String> = LinkedList::new();
    list.push_front(String::from("world"));
    list.push_front(String::from("hello"));
    assert_eq!(list.pop_front(), Some(String::from("hello")));
    assert_eq!(list.pop_front(), Some(String::from("world")));
}

#[test]
fn clone_is_a_deep_copy() {
    let mut list: LinkedList<i64> = LinkedList::new();
    list.push_front(1);
    list.push_front(2);
    let mut copy = list.clone();
    // draining the copy leaves the source untouched
    assert_eq!(copy.pop_front(), Some(2));
    assert_eq!(copy.pop_front(), Some(1));
    assert_eq!(copy.pop_front(), None);
    assert_eq!(list.get_size(), 2);
    assert_eq!(list.pop_front(), Some(2));
}

#[test]
fn consuming_iterator_yields_front_first() {
    let mut list: LinkedList<i64> = LinkedList::new();
    list.push_front(1);
    list.push_front(2);
    let mut it = list.into_iter();
    assert_eq!(it.next(), Some(2));
    assert_eq!(it.next(), Some(1));
    assert_eq!(it.next(), None);
}

#[test]
fn borrowing_iterator_clones_values() {
    let mut list: LinkedList<i64> = LinkedList::new();
    list.push_front(7);
    list.push_front(8);
    let mut it = list.iter();
    assert_eq!(it.next(), Some(8));
    assert_eq!(it.next(), Some(7));
    assert_eq!(it.next(), None);
    // the list is untouched
    assert_eq!(list.get_size(), 2);
}

#[test]
fn find_in_word_positions() {
    let secret: Vec<char> = vec!['h', 'e', 'l', 'l', 'o'];
    let mut guessed: Vec<char> = vec!['-', '-', '-', '-', '-'];
    assert_eq!(find_in_word(&secret, &guessed, 'l'), Some(2));
    guessed[2] = 'l';
    // a position already revealed is skipped: the next hidden 'l' wins
    assert_eq!(find_in_word(&secret, &guessed, 'l'), Some(3));
    assert_eq!(find_in_word(&secret, &guessed, 'z'), None);
    assert_eq!(find_in_word(&secret, &guessed, 'h'), Some(0));
}

#[test]
fn trial_division_primality() {
    assert!(!is_prime(0));
    assert!(!is_prime(1));
    assert!(is_prime(2));
    assert!(is_prime(3));
    assert!(!is_prime(4));
    assert!(is_prime(7));
    // squares of primes are composite: the trial divisors reach the root
    assert!(!is_prime(9));
    assert!(is_prime(13));
    assert!(!is_prime(15));
    assert!(!is_prime(16));
    assert!(!is_prime(25));
    assert!(!is_prime(100));
    assert!(is_prime(65537));
}

#[test]
fn factorization_products() {
    assert_eq!(prime_factors(1), Vec::<u32>::new());
    assert_eq!(prime_factors(2), vec![2]);
    assert_eq!(prime_factors(12), vec![2, 2, 3]);
    assert_eq!(prime_factors(97), vec![97]);
    assert_eq!(prime_factors(100), vec![2, 2, 5, 5]);
    assert_eq!(prime_factors(720), vec![2, 2, 2, 2, 3, 3, 5]);
}

#[test]
fn string_equality_by_characters() {
    assert!(str_eq("", ""));
    assert!(str_eq("main", "main"));
    assert!(!str_eq("main", "mains"));
    assert!(!str_eq("main", "maim"));
    assert!(str_eq("\u{00e9}x", "\u{00e9}x"));
}
