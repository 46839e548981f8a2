use ming_qiao::fleet::cve_findings::{insert_sorted, text_less};

#[test]
fn text_order_is_code_point_order() {
	assert!(text_less("abc", "abd"));
	assert!(text_less("ab", "abc"));
	assert!(!text_less("abc", "abc"));
	assert!(!text_less("b", "abc"));
	assert!(text_less("", "a"));
	assert!(text_less("Z", "a"));
}

#[test]
fn insert_sorted_keeps_a_sorted_set() {
	let mut v: Vec<String> = Vec::new();
	for k in ["nats", "docker", "rust", "nats", "docker", "mcp"] {
		insert_sorted(&mut v, k);
	}
	assert_eq!(v, vec!["docker", "mcp", "nats", "rust"]);
}
