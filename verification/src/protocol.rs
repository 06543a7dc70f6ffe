//! The instrument's wire protocol.
//!
//! Every command is ASCII text followed by one carriage return. At
//! start-up the host sends the fixed initialization sequence, pausing
//! between lines; in the steady state it sends the measurement query
//! once per configured interval and reads back one reading per query.

use vstd::prelude::*;

verus! {

/// The steady-state measurement query, `MEAS:CURR:DC?` plus a carriage
/// return.
pub open spec fn request_bytes() -> Seq<u8> {
    seq![
        77u8,
        69u8,
        65u8,
        83u8,
        58u8,
        67u8,
        85u8,
        82u8,
        82u8,
        58u8,
        68u8,
        67u8,
        63u8,
        13u8,
    ]
}

/// The `i`th line of the initialization sequence, carriage return
/// included.
pub open spec fn init_command(i: int) -> Seq<u8> {
    if i == 0 {
        seq![42u8, 82u8, 83u8, 84u8, 13u8]
    } else if i == 1 {
        seq![65u8, 82u8, 77u8, 58u8, 67u8, 79u8, 85u8, 78u8, 32u8, 49u8, 13u8]
    } else if i == 2 {
        seq![68u8, 73u8, 83u8, 80u8, 58u8, 68u8, 73u8, 71u8, 32u8, 53u8, 13u8]
    } else if i == 3 {
        seq![83u8, 89u8, 83u8, 84u8, 58u8, 90u8, 67u8, 72u8, 32u8, 79u8, 70u8, 70u8, 13u8]
    } else if i == 4 {
        seq![
            83u8,
            69u8,
            78u8,
            83u8,
            58u8,
            67u8,
            85u8,
            82u8,
            82u8,
            58u8,
            78u8,
            80u8,
            76u8,
            67u8,
            32u8,
            54u8,
            13u8,
        ]
    } else if i == 5 {
        seq![70u8, 79u8, 82u8, 77u8, 58u8, 69u8, 76u8, 69u8, 77u8, 32u8, 82u8, 69u8, 65u8, 68u8, 13u8]
    } else if i == 6 {
        seq![84u8, 82u8, 73u8, 71u8, 58u8, 67u8, 79u8, 85u8, 78u8, 32u8, 49u8, 13u8]
    } else {
        seq![]
    }
}

/// The delay the host leaves after each initialization line, in
/// milliseconds, so the instrument can process it.
pub const INIT_DELAY_MS: u64 = 50;

/// The measurement query as bytes ready to write.
pub fn request_command() -> (r: Vec<u8>)
    ensures
        r@ == request_bytes(),
{
    let mut v: Vec<u8> = Vec::new();
    v.push(77u8);
    v.push(69u8);
    v.push(65u8);
    v.push(83u8);
    v.push(58u8);
    v.push(67u8);
    v.push(85u8);
    v.push(82u8);
    v.push(82u8);
    v.push(58u8);
    v.push(68u8);
    v.push(67u8);
    v.push(63u8);
    v.push(13u8);
    proof {
        assert(v@ =~= request_bytes());
    }
    v
}

/// The initialization sequence as byte lines ready to write, in order.
pub fn init_commands() -> (r: Vec<Vec<u8>>)
    ensures
        r@.len() == 7,
        forall|i: int| 0 <= i < 7 ==> #[trigger] r@[i]@ == init_command(i),
{
    let mut out: Vec<Vec<u8>> = Vec::new();

    let mut c: Vec<u8> = Vec::new();
    c.push(42u8);
    c.push(82u8);
    c.push(83u8);
    c.push(84u8);
    c.push(13u8);
    proof {
        assert(c@ =~= init_command(0));
    }
    out.push(c);

    let mut c: Vec<u8> = Vec::new();
    c.push(65u8);
    c.push(82u8);
    c.push(77u8);
    c.push(58u8);
    c.push(67u8);
    c.push(79u8);
    c.push(85u8);
    c.push(78u8);
    c.push(32u8);
    c.push(49u8);
    c.push(13u8);
    proof {
        assert(c@ =~= init_command(1));
    }
    out.push(c);

    let mut c: Vec<u8> = Vec::new();
    c.push(68u8);
    c.push(73u8);
    c.push(83u8);
    c.push(80u8);
    c.push(58u8);
    c.push(68u8);
    c.push(73u8);
    c.push(71u8);
    c.push(32u8);
    c.push(53u8);
    c.push(13u8);
    proof {
        assert(c@ =~= init_command(2));
    }
    out.push(c);

    let mut c: Vec<u8> = Vec::new();
    c.push(83u8);
    c.push(89u8);
    c.push(83u8);
    c.push(84u8);
    c.push(58u8);
    c.push(90u8);
    c.push(67u8);
    c.push(72u8);
    c.push(32u8);
    c.push(79u8);
    c.push(70u8);
    c.push(70u8);
    c.push(13u8);
    proof {
        assert(c@ =~= init_command(3));
    }
    out.push(c);

    let mut c: Vec<u8> = Vec::new();
    c.push(83u8);
    c.push(69u8);
    c.push(78u8);
    c.push(83u8);
    c.push(58u8);
    c.push(67u8);
    c.push(85u8);
    c.push(82u8);
    c.push(82u8);
    c.push(58u8);
    c.push(78u8);
    c.push(80u8);
    c.push(76u8);
    c.push(67u8);
    c.push(32u8);
    c.push(54u8);
    c.push(13u8);
    proof {
        assert(c@ =~= init_command(4));
    }
    out.push(c);

    let mut c: Vec<u8> = Vec::new();
    c.push(70u8);
    c.push(79u8);
    c.push(82u8);
    c.push(77u8);
    c.push(58u8);
    c.push(69u8);
    c.push(76u8);
    c.push(69u8);
    c.push(77u8);
    c.push(32u8);
    c.push(82u8);
    c.push(69u8);
    c.push(65u8);
    c.push(68u8);
    c.push(13u8);
    proof {
        assert(c@ =~= init_command(5));
    }
    out.push(c);

    let mut c: Vec<u8> = Vec::new();
    c.push(84u8);
    c.push(82u8);
    c.push(73u8);
    c.push(71u8);
    c.push(58u8);
    c.push(67u8);
    c.push(79u8);
    c.push(85u8);
    c.push(78u8);
    c.push(32u8);
    c.push(49u8);
    c.push(13u8);
    proof {
        assert(c@ =~= init_command(6));
    }
    out.push(c);

    out
}

} // verus!
