use memory_pool_system::errors::{
    Error, RES_COMMIT_LIMIT, RES_FAIL, RES_IO, RES_LIMIT, RES_MEMORY, RES_OK, RES_PARAM,
    RES_RESOURCE, RES_UNIMPL,
};

#[test]
fn result_maps_every_code() {
    assert_eq!(Error::result(RES_OK), Ok(()));
    assert_eq!(Error::result(RES_COMMIT_LIMIT), Err(Error::CommitLimit));
    assert_eq!(Error::result(RES_IO), Err(Error::InputOutput));
    assert_eq!(Error::result(RES_MEMORY), Err(Error::InsufficientMemory));
    assert_eq!(Error::result(RES_RESOURCE), Err(Error::InsufficientResources));
    assert_eq!(Error::result(RES_LIMIT), Err(Error::InternalLimit));
    assert_eq!(Error::result(RES_PARAM), Err(Error::InvalidParam));
    assert_eq!(Error::result(RES_UNIMPL), Err(Error::Unimplemented));
}

#[test]
fn result_maps_unknown_codes_to_other() {
    assert_eq!(Error::result(RES_FAIL), Err(Error::Other));
    assert_eq!(Error::result(99), Err(Error::Other));
    assert_eq!(Error::result(-1), Err(Error::Other));
}

#[test]
fn only_ok_code_succeeds() {
    for code in -8..64 {
        assert_eq!(Error::result(code).is_ok(), code == RES_OK);
    }
}

#[test]
fn descriptions() {
    assert_eq!(
        Error::CommitLimit.description(),
        "the arena's commit limit would be exceeded."
    );
    assert_eq!(Error::InputOutput.description(), "an input/output error occurred.");
    assert_eq!(
        Error::InsufficientMemory.description(),
        "needed memory could not be obtained."
    );
    assert_eq!(
        Error::InsufficientResources.description(),
        "a needed resource could not be obtained."
    );
    assert_eq!(Error::InternalLimit.description(), "an internal limitation was exceeded.");
    assert_eq!(Error::InvalidParam.description(), "an invalid parameter was passed.");
    assert_eq!(Error::Unimplemented.description(), "operation is not implemented.");
    assert_eq!(Error::Other.description(), "operation failed.");
}
