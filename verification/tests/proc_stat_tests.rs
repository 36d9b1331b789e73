use garcard::proc_stat::process_start_time_ticks;

const STAT: &str = "1234 (garcard) S 1 1234 1234 0 -1 4194560 100 0 0 0 1 2 0 0 20 0 1 0 98765 123456 7\n";

#[test]
fn start_time_is_the_twentieth_field_after_the_command() {
    assert_eq!(process_start_time_ticks(STAT), Some(98765));
}

#[test]
fn start_time_uses_the_last_paren_space() {
    let stat = "77 (odd) name) R 1 77 77 0 -1 0 0 0 0 0 0 0 0 0 20 0 1 0 4242 0\n";
    assert_eq!(process_start_time_ticks(stat), Some(4242));
}

#[test]
fn start_time_missing_separator_is_none() {
    assert_eq!(process_start_time_ticks("1234 garcard S 1 2 3"), None);
}

#[test]
fn start_time_too_few_fields_is_none() {
    assert_eq!(process_start_time_ticks("1 (x) S 1 2 3 4 5"), None);
}

#[test]
fn start_time_not_a_number_is_none() {
    let stat = "1 (x) S 1 1 1 0 -1 0 0 0 0 0 0 0 0 0 20 0 1 0 soon 0\n";
    assert_eq!(process_start_time_ticks(stat), None);
}

#[test]
fn start_time_accepts_extra_whitespace() {
    let stat = "1 (x)  S\t1 1 1 0 -1 0 0 0 0 0 0 0 0 0 20 0 1 0   55";
    assert_eq!(process_start_time_ticks(stat), Some(55));
}
