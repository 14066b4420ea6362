//! What libmemcached's calls return.

use vstd::prelude::*;

verus! {

/// A libmemcached client, of which only the library knows the inside.
#[allow(non_camel_case_types)]
#[derive(Debug)]
pub struct memcached_st;

/// How a call went.
#[allow(non_camel_case_types)]
#[derive(Debug, Clone, Copy, PartialEq, Eq, Structural)]
pub enum memcached_return_t {
    MEMCACHED_SUCCESS,
    MEMCACHED_FAILURE,
    MEMCACHED_HOST_LOOKUP_FAILURE,
    MEMCACHED_CONNECTION_FAILURE,
    MEMCACHED_CONNECTION_BIND_FAILURE,
    MEMCACHED_WRITE_FAILURE,
    MEMCACHED_READ_FAILURE,
    MEMCACHED_UNKNOWN_READ_FAILURE,
    MEMCACHED_PROTOCOL_ERROR,
    MEMCACHED_CLIENT_ERROR,
    MEMCACHED_SERVER_ERROR,
    MEMCACHED_ERROR,
    MEMCACHED_DATA_EXISTS,
    MEMCACHED_DATA_DOES_NOT_EXIST,
    MEMCACHED_NOTSTORED,
    MEMCACHED_STORED,
    MEMCACHED_NOTFOUND,
    MEMCACHED_MEMORY_ALLOCATION_FAILURE,
    MEMCACHED_PARTIAL_READ,
    MEMCACHED_SOME_ERRORS,
    MEMCACHED_NO_SERVERS,
    MEMCACHED_END,
    MEMCACHED_DELETED,
    MEMCACHED_VALUE,
    MEMCACHED_STAT,
    MEMCACHED_ITEM,
    MEMCACHED_ERRNO,
    MEMCACHED_FAIL_UNIX_SOCKET,
    MEMCACHED_NOT_SUPPORTED,
    MEMCACHED_NO_KEY_PROVIDED,
    MEMCACHED_FETCH_NOTFINISHED,
    MEMCACHED_TIMEOUT,
    MEMCACHED_BUFFERED,
    MEMCACHED_BAD_KEY_PROVIDED,
    MEMCACHED_INVALID_HOST_PROTOCOL,
    MEMCACHED_SERVER_MARKED_DEAD,
    MEMCACHED_UNKNOWN_STAT_KEY,
    MEMCACHED_E2BIG,
    MEMCACHED_INVALID_ARGUMENTS,
    MEMCACHED_KEY_TOO_BIG,
    MEMCACHED_AUTH_PROBLEM,
    MEMCACHED_AUTH_FAILURE,
    MEMCACHED_AUTH_CONTINUE,
    MEMCACHED_PARSE_ERROR,
    MEMCACHED_PARSE_USER_ERROR,
    MEMCACHED_DEPRECATED,
    MEMCACHED_IN_PROGRESS,
    MEMCACHED_SERVER_TEMPORARILY_DISABLED,
    MEMCACHED_SERVER_MEMORY_ALLOCATION_FAILURE,
    MEMCACHED_MAXIMUM_RETURN,
}

impl memcached_return_t {
    /// The number that the call returns.
    pub open spec fn code_spec(self) -> u32 {
        match self {
            memcached_return_t::MEMCACHED_SUCCESS => 0,
            memcached_return_t::MEMCACHED_FAILURE => 1,
            memcached_return_t::MEMCACHED_HOST_LOOKUP_FAILURE => 2,
            memcached_return_t::MEMCACHED_CONNECTION_FAILURE => 3,
            memcached_return_t::MEMCACHED_CONNECTION_BIND_FAILURE => 4,
            memcached_return_t::MEMCACHED_WRITE_FAILURE => 5,
            memcached_return_t::MEMCACHED_READ_FAILURE => 6,
            memcached_return_t::MEMCACHED_UNKNOWN_READ_FAILURE => 7,
            memcached_return_t::MEMCACHED_PROTOCOL_ERROR => 8,
            memcached_return_t::MEMCACHED_CLIENT_ERROR => 9,
            memcached_return_t::MEMCACHED_SERVER_ERROR => 10,
            memcached_return_t::MEMCACHED_ERROR => 11,
            memcached_return_t::MEMCACHED_DATA_EXISTS => 12,
            memcached_return_t::MEMCACHED_DATA_DOES_NOT_EXIST => 13,
            memcached_return_t::MEMCACHED_NOTSTORED => 14,
            memcached_return_t::MEMCACHED_STORED => 15,
            memcached_return_t::MEMCACHED_NOTFOUND => 16,
            memcached_return_t::MEMCACHED_MEMORY_ALLOCATION_FAILURE => 17,
            memcached_return_t::MEMCACHED_PARTIAL_READ => 18,
            memcached_return_t::MEMCACHED_SOME_ERRORS => 19,
            memcached_return_t::MEMCACHED_NO_SERVERS => 20,
            memcached_return_t::MEMCACHED_END => 21,
            memcached_return_t::MEMCACHED_DELETED => 22,
            memcached_return_t::MEMCACHED_VALUE => 23,
            memcached_return_t::MEMCACHED_STAT => 24,
            memcached_return_t::MEMCACHED_ITEM => 25,
            memcached_return_t::MEMCACHED_ERRNO => 26,
            memcached_return_t::MEMCACHED_FAIL_UNIX_SOCKET => 27,
            memcached_return_t::MEMCACHED_NOT_SUPPORTED => 28,
            memcached_return_t::MEMCACHED_NO_KEY_PROVIDED => 29,
            memcached_return_t::MEMCACHED_FETCH_NOTFINISHED => 30,
            memcached_return_t::MEMCACHED_TIMEOUT => 31,
            memcached_return_t::MEMCACHED_BUFFERED => 32,
            memcached_return_t::MEMCACHED_BAD_KEY_PROVIDED => 33,
            memcached_return_t::MEMCACHED_INVALID_HOST_PROTOCOL => 34,
            memcached_return_t::MEMCACHED_SERVER_MARKED_DEAD => 35,
            memcached_return_t::MEMCACHED_UNKNOWN_STAT_KEY => 36,
            memcached_return_t::MEMCACHED_E2BIG => 37,
            memcached_return_t::MEMCACHED_INVALID_ARGUMENTS => 38,
            memcached_return_t::MEMCACHED_KEY_TOO_BIG => 39,
            memcached_return_t::MEMCACHED_AUTH_PROBLEM => 40,
            memcached_return_t::MEMCACHED_AUTH_FAILURE => 41,
            memcached_return_t::MEMCACHED_AUTH_CONTINUE => 42,
            memcached_return_t::MEMCACHED_PARSE_ERROR => 43,
            memcached_return_t::MEMCACHED_PARSE_USER_ERROR => 44,
            memcached_return_t::MEMCACHED_DEPRECATED => 45,
            memcached_return_t::MEMCACHED_IN_PROGRESS => 46,
            memcached_return_t::MEMCACHED_SERVER_TEMPORARILY_DISABLED => 47,
            memcached_return_t::MEMCACHED_SERVER_MEMORY_ALLOCATION_FAILURE => 48,
            memcached_return_t::MEMCACHED_MAXIMUM_RETURN => 49,
        }
    }

    /// How a call went that returned a number, if libmemcached has a name for it.
    pub fn from_code(code: u32) -> (r: Option<memcached_return_t>)
        ensures
            match r {
                Some(ret) => ret.code_spec() == code,
                None => forall|ret: memcached_return_t| #[trigger] ret.code_spec() != code,
            },
    {
        match code {
            0 => Some(memcached_return_t::MEMCACHED_SUCCESS),
            1 => Some(memcached_return_t::MEMCACHED_FAILURE),
            2 => Some(memcached_return_t::MEMCACHED_HOST_LOOKUP_FAILURE),
            3 => Some(memcached_return_t::MEMCACHED_CONNECTION_FAILURE),
            4 => Some(memcached_return_t::MEMCACHED_CONNECTION_BIND_FAILURE),
            5 => Some(memcached_return_t::MEMCACHED_WRITE_FAILURE),
            6 => Some(memcached_return_t::MEMCACHED_READ_FAILURE),
            7 => Some(memcached_return_t::MEMCACHED_UNKNOWN_READ_FAILURE),
            8 => Some(memcached_return_t::MEMCACHED_PROTOCOL_ERROR),
            9 => Some(memcached_return_t::MEMCACHED_CLIENT_ERROR),
            10 => Some(memcached_return_t::MEMCACHED_SERVER_ERROR),
            11 => Some(memcached_return_t::MEMCACHED_ERROR),
            12 => Some(memcached_return_t::MEMCACHED_DATA_EXISTS),
            13 => Some(memcached_return_t::MEMCACHED_DATA_DOES_NOT_EXIST),
            14 => Some(memcached_return_t::MEMCACHED_NOTSTORED),
            15 => Some(memcached_return_t::MEMCACHED_STORED),
            16 => Some(memcached_return_t::MEMCACHED_NOTFOUND),
            17 => Some(memcached_return_t::MEMCACHED_MEMORY_ALLOCATION_FAILURE),
            18 => Some(memcached_return_t::MEMCACHED_PARTIAL_READ),
            19 => Some(memcached_return_t::MEMCACHED_SOME_ERRORS),
            20 => Some(memcached_return_t::MEMCACHED_NO_SERVERS),
            21 => Some(memcached_return_t::MEMCACHED_END),
            22 => Some(memcached_return_t::MEMCACHED_DELETED),
            23 => Some(memcached_return_t::MEMCACHED_VALUE),
            24 => Some(memcached_return_t::MEMCACHED_STAT),
            25 => Some(memcached_return_t::MEMCACHED_ITEM),
            26 => Some(memcached_return_t::MEMCACHED_ERRNO),
            27 => Some(memcached_return_t::MEMCACHED_FAIL_UNIX_SOCKET),
            28 => Some(memcached_return_t::MEMCACHED_NOT_SUPPORTED),
            29 => Some(memcached_return_t::MEMCACHED_NO_KEY_PROVIDED),
            30 => Some(memcached_return_t::MEMCACHED_FETCH_NOTFINISHED),
            31 => Some(memcached_return_t::MEMCACHED_TIMEOUT),
            32 => Some(memcached_return_t::MEMCACHED_BUFFERED),
            33 => Some(memcached_return_t::MEMCACHED_BAD_KEY_PROVIDED),
            34 => Some(memcached_return_t::MEMCACHED_INVALID_HOST_PROTOCOL),
            35 => Some(memcached_return_t::MEMCACHED_SERVER_MARKED_DEAD),
            36 => Some(memcached_return_t::MEMCACHED_UNKNOWN_STAT_KEY),
            37 => Some(memcached_return_t::MEMCACHED_E2BIG),
            38 => Some(memcached_return_t::MEMCACHED_INVALID_ARGUMENTS),
            39 => Some(memcached_return_t::MEMCACHED_KEY_TOO_BIG),
            40 => Some(memcached_return_t::MEMCACHED_AUTH_PROBLEM),
            41 => Some(memcached_return_t::MEMCACHED_AUTH_FAILURE),
            42 => Some(memcached_return_t::MEMCACHED_AUTH_CONTINUE),
            43 => Some(memcached_return_t::MEMCACHED_PARSE_ERROR),
            44 => Some(memcached_return_t::MEMCACHED_PARSE_USER_ERROR),
            45 => Some(memcached_return_t::MEMCACHED_DEPRECATED),
            46 => Some(memcached_return_t::MEMCACHED_IN_PROGRESS),
            47 => Some(memcached_return_t::MEMCACHED_SERVER_TEMPORARILY_DISABLED),
            48 => Some(memcached_return_t::MEMCACHED_SERVER_MEMORY_ALLOCATION_FAILURE),
            49 => Some(memcached_return_t::MEMCACHED_MAXIMUM_RETURN),
            _ => None,
        }
    }
}

} // verus!
