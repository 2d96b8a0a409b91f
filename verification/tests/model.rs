use random_access_disk::disk::RandomAccessDisk;
use random_access_disk::memory::MemoryFile;
use random_access_disk::trim::Platform;
use std::path::PathBuf;

const MAX_FILE_SIZE: u64 = 50_000;

#[derive(Clone, Debug)]
enum Op {
    Read { offset: u64, length: u64 },
    Write { offset: u64, data: Vec<u8> },
    Delete { offset: u64, length: u64 },
    Truncate { length: u64 },
}

// A small generator of repeatable pseudo-random numbers.
struct Numbers(u64);

impl Numbers {
    fn next(&mut self) -> u64 {
        self.0 = self.0.wrapping_mul(6364136223846793005).wrapping_add(1442695040888963407);
        self.0 >> 33
    }

    fn below(&mut self, bound: u64) -> u64 {
        self.next() % bound
    }

    fn op(&mut self) -> Op {
        // Small numbers now and then, to meet the edges.
        let bound = if self.below(3) == 0 { 40 } else { MAX_FILE_SIZE };
        match self.below(7) {
            0 | 1 => Op::Read { offset: self.below(bound), length: self.below(bound) },
            2 | 3 => {
                let length = self.below(if bound == 40 { 20 } else { 5000 });
                let data = (0..length).map(|_| b' ' + self.below(95) as u8).collect();
                Op::Write { offset: self.below(bound), data }
            }
            4 | 5 => Op::Delete { offset: self.below(bound), length: self.below(bound) },
            _ => Op::Truncate { length: self.below(bound) },
        }
    }
}

// The model: a buffer that grows on write and is filled with zeros where
// bytes are deleted or the buffer is extended.
fn assert_implementation_matches_model(platform: Platform, block_size: u64, ops: Vec<Op>) {
    let mut file = MemoryFile::new(1 << 20);
    let mut implementation = RandomAccessDisk::builder(PathBuf::from("1.db"))
        .platform(platform)
        .build(file.len(), block_size);
    let mut model: Vec<u8> = vec![];

    for op in ops {
        match op {
            Op::Read { offset, length } => {
                let end = offset + length;
                let plan = implementation.read(offset, length);
                if model.len() as u64 >= end {
                    let plan = plan.expect("Reads should be successful.");
                    let bytes = file.carry_out(&plan.ops, &[]).unwrap();
                    implementation.commit(&plan);
                    assert_eq!(
                        RandomAccessDisk::complete_read(offset, length, bytes).unwrap(),
                        &model[offset as usize..end as usize]
                    );
                } else {
                    assert!(plan.is_err());
                }
            }
            Op::Write { offset, ref data } => {
                let end = offset + (data.len() as u64);
                if !data.is_empty() {
                    if (model.len() as u64) < end {
                        model.resize(end as usize, 0);
                    }
                    model[offset as usize..end as usize].copy_from_slice(data);
                }
                let plan = implementation.write(offset, data).expect("Writes should be successful.");
                file.carry_out(&plan.ops, data).unwrap();
                implementation.commit(&plan);
            }
            Op::Delete { offset, length } => {
                let plan = implementation.del(offset, length);
                if model.len() >= offset as usize {
                    let plan = plan.expect("Deletes should be successful.");
                    file.carry_out(&plan.ops, &[]).unwrap();
                    implementation.commit(&plan);
                    if length == 0 {
                    } else if offset + length < model.len() as u64 {
                        model[offset as usize..(offset + length) as usize].fill(0);
                    } else {
                        model.resize(offset as usize, 0);
                    };
                } else {
                    assert!(plan.is_err());
                }
            }
            Op::Truncate { length } => {
                let plan = implementation.truncate(length).unwrap();
                file.carry_out(&plan.ops, &[]).unwrap();
                implementation.commit(&plan);
                model.resize(length as usize, 0);
            }
        }
        assert_eq!(implementation.len(), Ok(model.len() as u64));
        assert_eq!(file.contents(), &model);
    }
}

#[test]
fn implementation_matches_model() {
    let platforms = [
        (Platform::Portable, 0),
        (Platform::Linux, 4096),
        (Platform::MacOs, 4096),
        (Platform::MacOs, 512),
        (Platform::MacOs, 3),
        (Platform::MacOs, 0),
        (Platform::Windows, 0),
    ];
    let mut numbers = Numbers(0x5eed);
    for round in 0..40 {
        let (platform, block_size) = platforms[round % platforms.len()];
        let count = numbers.below(60) as usize;
        let ops = (0..count).map(|_| numbers.op()).collect();
        assert_implementation_matches_model(platform, block_size, ops);
    }
}

#[test]
fn implementation_matches_model_on_chosen_sequences() {
    let sequence = vec![
        Op::Write { offset: 10, data: b"abc".to_vec() },
        Op::Write { offset: 30, data: vec![] },
        Op::Read { offset: 0, length: 13 },
        Op::Read { offset: 0, length: 14 },
        Op::Delete { offset: 13, length: 0 },
        Op::Delete { offset: 14, length: 0 },
        Op::Delete { offset: 11, length: 1 },
        Op::Delete { offset: 11, length: 2 },
        Op::Read { offset: 0, length: 11 },
        Op::Truncate { length: 9000 },
        Op::Write { offset: 4000, data: vec![b'x'; 4500] },
        Op::Delete { offset: 4090, length: 4200 },
        Op::Read { offset: 4000, length: 5000 },
        Op::Delete { offset: 0, length: 9000 },
        Op::Read { offset: 0, length: 0 },
    ];
    for (platform, block_size) in
        [(Platform::Portable, 0), (Platform::Linux, 4096), (Platform::MacOs, 4096), (Platform::Windows, 0)]
    {
        assert_implementation_matches_model(platform, block_size, sequence.clone());
    }
}
