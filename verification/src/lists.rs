use vstd::prelude::*;

verus! {

/// The selection of a list of `len` entries moved by `delta` from the current
/// one (the first when none is), kept within the list; none for an empty list.
/// The current position is read as a signed number.
pub open spec fn moved_selection(selected: Option<usize>, len: nat, delta: int) -> Option<usize> {
    if len == 0 {
        None
    } else {
        let current = (match selected {
            Some(i) => i,
            None => 0,
        } as isize) as int;
        let max = len - 1;
        let next = current + delta;
        Some(
            if next < 0 {
                0
            } else if next > max {
                max as usize
            } else {
                next as usize
            },
        )
    }
}

/// Moving does not overflow a signed position.
pub open spec fn move_fits(selected: Option<usize>, delta: isize) -> bool {
    let current = (match selected {
        Some(i) => i,
        None => 0,
    } as isize) as int;
    isize::MIN <= current + delta <= isize::MAX
}

/// The selection of a list of `len` entries moved by `delta`, kept within
/// the list (see `moved_selection`).
pub fn move_list_selection_by(selected: Option<usize>, len: usize, delta: isize) -> (r: Option<usize>)
    requires
        move_fits(selected, delta),
    ensures
        r == moved_selection(selected, len as nat, delta as int),
{
    if len == 0 {
        return None;
    }
    let current: isize = match selected {
        Some(i) => i as isize,
        None => 0,
    };
    let next: isize = current + delta;
    let max: usize = len - 1;
    if next < 0 {
        Some(0)
    } else if next as usize > max {
        Some(max)
    } else {
        Some(next as usize)
    }
}

/// The first entry of a list of `len`, none when it is empty.
pub fn select_list_first(len: usize) -> (r: Option<usize>)
    ensures
        r == if len == 0 { None } else { Some(0usize) },
{
    if len == 0 {
        None
    } else {
        Some(0)
    }
}

/// The last entry of a list of `len`, none when it is empty.
pub fn select_list_last(len: usize) -> (r: Option<usize>)
    ensures
        r == if len == 0 { None } else { Some((len - 1) as usize) },
{
    if len == 0 {
        None
    } else {
        Some(len - 1)
    }
}

/// A moved selection always names an entry of a non-empty list, and none of
/// an empty one.
pub proof fn law_moved_selection_in_list(selected: Option<usize>, len: nat, delta: int)
    ensures
        match moved_selection(selected, len, delta) {
            Some(i) => i < len,
            None => len == 0,
        },
{
}

} // verus!
