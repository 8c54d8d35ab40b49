use repo_manager::utils::to_io_error;

#[test]
fn test_to_io_error() {
    let io_ok = to_io_error::<&str, &str>(Ok("Ok"));
    let io_error = to_io_error::<&str, &str>(Err("Err"));

    assert_eq!(io_ok.unwrap(), "Ok");
    assert_eq!(format!("{}", io_error.unwrap_err().into_inner().unwrap().as_ref()), "Err")
}

#[test]
fn io_error_has_kind_other() {
    let e = to_io_error::<u8, String>(Err(String::from("broken"))).unwrap_err();
    assert_eq!(e.kind(), std::io::ErrorKind::Other);
    assert_eq!(format!("{}", e), "broken");
}
