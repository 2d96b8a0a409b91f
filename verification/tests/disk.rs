use random_access_disk::disk::{Builder, Plan, RandomAccessDisk, SetupStep};
use random_access_disk::error::DiskError;
use random_access_disk::file::FileOp;
use random_access_disk::memory::MemoryFile;
use random_access_disk::trim::Platform;
use std::path::PathBuf;

// A handle together with the file in memory that its plans are carried out on.
struct Storage {
    disk: RandomAccessDisk,
    file: MemoryFile,
}

impl Storage {
    fn open(name: &str) -> Storage {
        Storage::build(RandomAccessDisk::builder(PathBuf::from(name)), 0)
    }

    fn build(builder: Builder, fs_block_size: u64) -> Storage {
        let file = MemoryFile::new(1 << 20);
        Storage { disk: builder.build(file.len(), fs_block_size), file }
    }

    fn finish(&mut self, plan: Plan, data: &[u8]) -> Result<Vec<u8>, DiskError> {
        let bytes = self.file.carry_out(&plan.ops, data)?;
        self.disk.commit(&plan);
        Ok(bytes)
    }

    fn write(&mut self, offset: u64, data: &[u8]) -> Result<(), DiskError> {
        let plan = self.disk.write(offset, data)?;
        self.finish(plan, data).map(|_| ())
    }

    fn read(&mut self, offset: u64, length: u64) -> Result<Vec<u8>, DiskError> {
        let plan = self.disk.read(offset, length)?;
        let bytes = self.finish(plan, &[])?;
        RandomAccessDisk::complete_read(offset, length, bytes)
    }

    fn del(&mut self, offset: u64, length: u64) -> Result<(), DiskError> {
        let plan = self.disk.del(offset, length)?;
        self.finish(plan, &[]).map(|_| ())
    }

    fn truncate(&mut self, length: u64) -> Result<(), DiskError> {
        let plan = self.disk.truncate(length)?;
        self.finish(plan, &[]).map(|_| ())
    }

    fn sync_all(&mut self) -> Result<(), DiskError> {
        let plan = self.disk.sync_all()?;
        self.finish(plan, &[]).map(|_| ())
    }

    fn len(&self) -> u64 {
        self.disk.len().unwrap()
    }

    fn is_empty(&self) -> bool {
        self.disk.is_empty().unwrap()
    }

    fn contents(&self) -> String {
        String::from_utf8(self.file.contents().clone()).unwrap()
    }
}

#[test]
fn disk_can_call_new() {
    let storage = Storage::open("1.db");
    assert_eq!(storage.len(), 0);
}

#[test]
fn disk_can_open_buffer() {
    let mut file = Storage::open("2.db");
    file.write(0, b"hello").unwrap();
}

#[test]
fn disk_can_write() {
    let mut file = Storage::open("3.db");
    file.write(0, b"hello").unwrap();
    file.write(5, b" world").unwrap();
}

#[test]
fn disk_can_read() {
    let mut file = Storage::open("4.db");
    file.write(0, b"hello").unwrap();
    file.write(5, b" world").unwrap();
    let text = file.read(0, 11).unwrap();
    assert_eq!(String::from_utf8(text.to_vec()).unwrap(), "hello world");
}

#[test]
fn can_truncate_lt() {
    let mut file = Storage::open("5.db");
    file.write(0, b"hello").unwrap();
    file.write(5, b" world").unwrap();
    file.truncate(7).unwrap();
    let text = file.read(0, 7).unwrap();
    assert_eq!(String::from_utf8(text.to_vec()).unwrap(), "hello w");
    match file.read(0, 8) {
        Ok(_) => panic!("file is too big. read past the end should have failed"),
        _ => {}
    };
    assert_eq!(file.contents(), "hello w");
}

#[test]
fn can_truncate_gt() {
    let mut file = Storage::open("6.db");
    file.write(0, b"hello").unwrap();
    file.write(5, b" world").unwrap();
    file.truncate(15).unwrap();
    let text = file.read(0, 15).unwrap();
    assert_eq!(String::from_utf8(text.to_vec()).unwrap(), "hello world\0\0\0\0");
    match file.read(0, 16) {
        Ok(_) => panic!("file is too big. read past the end should have failed"),
        _ => {}
    };
    assert_eq!(file.contents(), "hello world\0\0\0\0");
}

#[test]
fn can_truncate_eq() {
    let mut file = Storage::open("7.db");
    file.write(0, b"hello").unwrap();
    file.write(5, b" world").unwrap();
    file.truncate(11).unwrap();
    let text = file.read(0, 11).unwrap();
    assert_eq!(String::from_utf8(text.to_vec()).unwrap(), "hello world");
    match file.read(0, 12) {
        Ok(_) => panic!("file is too big. read past the end should have failed"),
        _ => {}
    };
    assert_eq!(file.contents(), "hello world");
}

#[test]
fn can_len() {
    let mut file = Storage::open("8.db");
    assert_eq!(file.len(), 0);
    file.write(0, b"hello").unwrap();
    assert_eq!(file.len(), 5);
    file.write(5, b" world").unwrap();
    assert_eq!(file.len(), 11);
    file.truncate(15).unwrap();
    assert_eq!(file.len(), 15);
    file.truncate(8).unwrap();
    assert_eq!(file.len(), 8);
}

#[test]
fn can_is_empty() {
    let mut file = Storage::open("9.db");
    assert_eq!(file.is_empty(), true);
    file.write(0, b"hello").unwrap();
    assert_eq!(file.is_empty(), false);
    file.truncate(0).unwrap();
    assert_eq!(file.is_empty(), true);
    file.truncate(1).unwrap();
    assert_eq!(file.is_empty(), false);
    file.truncate(0).unwrap();
    assert_eq!(file.is_empty(), true);
    file.write(0, b"what").unwrap();
    assert_eq!(file.is_empty(), false);
}

#[test]
fn explicit_no_auto_sync() {
    let mut file =
        Storage::build(RandomAccessDisk::builder(PathBuf::from("10.db")).auto_sync(false), 0);
    file.write(0, b"hello").unwrap();
    file.write(5, b" world").unwrap();
    file.truncate(11).unwrap();
    file.sync_all().unwrap();
    let text = file.read(0, 11).unwrap();
    assert_eq!(String::from_utf8(text.to_vec()).unwrap(), "hello world");
    match file.read(0, 12) {
        Ok(_) => panic!("file is too big. read past the end should have failed"),
        _ => {}
    };
    assert_eq!(file.contents(), "hello world");
}

#[test]
fn auto_sync() {
    let mut file = Storage::build(RandomAccessDisk::builder(PathBuf::from("11.db")), 0);
    file.write(0, b"hello").unwrap();
    file.write(5, b" world").unwrap();
    file.truncate(11).unwrap();
    let text = file.read(0, 11).unwrap();
    assert_eq!(String::from_utf8(text.to_vec()).unwrap(), "hello world");
    match file.read(0, 12) {
        Ok(_) => panic!("file is too big. read past the end should have failed"),
        _ => {}
    };
    assert_eq!(file.contents(), "hello world");
}

#[test]
fn auto_sync_with_sync_call() {
    let mut file = Storage::build(RandomAccessDisk::builder(PathBuf::from("12.db")), 0);
    file.write(0, b"hello").unwrap();
    file.write(5, b" world").unwrap();
    file.truncate(11).unwrap();
    file.sync_all().unwrap();
    let text = file.read(0, 11).unwrap();
    assert_eq!(String::from_utf8(text.to_vec()).unwrap(), "hello world");
    match file.read(0, 12) {
        Ok(_) => panic!("file is too big. read past the end should have failed"),
        _ => {}
    };
    assert_eq!(file.contents(), "hello world");
}

fn on_every_platform() -> Vec<Storage> {
    let mut storages = Vec::new();
    for (platform, block_size) in [
        (Platform::Portable, 0),
        (Platform::Linux, 4096),
        (Platform::MacOs, 4096),
        (Platform::MacOs, 512),
        (Platform::MacOs, 0),
        (Platform::Windows, 0),
    ] {
        let builder = RandomAccessDisk::builder(PathBuf::from("13.db")).platform(platform);
        storages.push(Storage::build(builder, block_size));
    }
    storages
}

#[test]
fn can_del_short() {
    for mut file in on_every_platform() {
        file.write(0, b"hello").unwrap();
        file.write(5, b" world").unwrap();
        file.write(11, b" people").unwrap();
        file.del(5, 6).unwrap();
        let hello = file.read(0, 5).unwrap();
        assert_eq!(String::from_utf8(hello.to_vec()).unwrap(), "hello");
        let zeros = file.read(5, 6).unwrap();
        assert_eq!(zeros, vec![0; 6]);
        let people = file.read(12, 6).unwrap();
        assert_eq!(String::from_utf8(people.to_vec()).unwrap(), "people");
    }
}

#[test]
fn can_del_long_middle() {
    for mut file in on_every_platform() {
        file.write(0, b"hello").unwrap();
        const MULTI_BLOCK_LEN: usize = 4096 * 3;
        let multi_block = &[0x61 as u8; MULTI_BLOCK_LEN];
        file.write(5, multi_block).unwrap();
        file.write((MULTI_BLOCK_LEN + 5) as u64, b"to all the ").unwrap();
        file.write((MULTI_BLOCK_LEN + 16) as u64, b"people").unwrap();
        file.del(5, MULTI_BLOCK_LEN as u64).unwrap();
        let hello = file.read(0, 5).unwrap();
        assert_eq!(String::from_utf8(hello.to_vec()).unwrap(), "hello");
        let zeros = file.read(5, 10).unwrap();
        assert_eq!(zeros, vec![0; 10]);
        let zeros = file.read(MULTI_BLOCK_LEN as u64, 5).unwrap();
        assert_eq!(zeros, vec![0; 5]);
        let zeros = file.read((MULTI_BLOCK_LEN / 2) as u64, 5).unwrap();
        assert_eq!(zeros, vec![0; 5]);
        let to_all_the_people = file.read((MULTI_BLOCK_LEN + 5) as u64, 17).unwrap();
        assert_eq!(String::from_utf8(to_all_the_people.to_vec()).unwrap(), "to all the people");
        file.del((MULTI_BLOCK_LEN + 7) as u64, 4).unwrap();
        let zeros = file.read((MULTI_BLOCK_LEN + 7) as u64, 4).unwrap();
        assert_eq!(zeros, vec![0; 4]);
        let to = file.read((MULTI_BLOCK_LEN + 5) as u64, 2).unwrap();
        assert_eq!(String::from_utf8(to.to_vec()).unwrap(), "to");
    }
}

#[test]
fn can_del_long_exact_block() {
    for mut file in on_every_platform() {
        const BLOCK_LEN: usize = 4096;
        let block = &[0x61 as u8; BLOCK_LEN + 1];
        file.write(0, block).unwrap();
        file.del(0, BLOCK_LEN as u64).unwrap();
        let zeros = file.read(0, 5).unwrap();
        assert_eq!(zeros, vec![0; 5]);
        let zeros = file.read(BLOCK_LEN as u64 - 5, 5).unwrap();
        assert_eq!(zeros, vec![0; 5]);
        file.del(0, (BLOCK_LEN + 1) as u64).unwrap();
        assert_eq!(0, file.len());
    }
}

#[test]
fn can_del_long_more_than_block() {
    for mut file in on_every_platform() {
        file.write(0, b"hello").unwrap();
        const MORE_THAN_BLOCK_LEN: usize = 4096 + 1000;
        let more_than_block = &[0x61 as u8; MORE_THAN_BLOCK_LEN + 1];
        file.write(5, more_than_block).unwrap();
        file.del(5, MORE_THAN_BLOCK_LEN as u64).unwrap();
        let zeros = file.read(5, 5).unwrap();
        assert_eq!(zeros, vec![0; 5]);
        let zeros = file.read(MORE_THAN_BLOCK_LEN as u64, 5).unwrap();
        assert_eq!(zeros, vec![0; 5]);

        const EXACT_TO_THIRD_BLOCK_LEN: usize = 4096 * 2 - 5;
        let exact_to_third_block = &[0x61 as u8; EXACT_TO_THIRD_BLOCK_LEN + 1];
        file.write(5, exact_to_third_block).unwrap();
        file.del(5, EXACT_TO_THIRD_BLOCK_LEN as u64).unwrap();
        let zeros = file.read(5, 5).unwrap();
        assert_eq!(zeros, vec![0; 5]);
        let zeros = file.read(EXACT_TO_THIRD_BLOCK_LEN as u64, 5).unwrap();
        assert_eq!(zeros, vec![0; 5]);
        file.del(5, (EXACT_TO_THIRD_BLOCK_LEN * 2) as u64).unwrap();
        assert_eq!(5, file.len());
    }
}

// The plans themselves, request by request.

fn disk(platform: Platform, auto_sync: bool, length: u64, block_size: u64) -> RandomAccessDisk {
    RandomAccessDisk::builder(PathBuf::from("plans.db"))
        .platform(platform)
        .auto_sync(auto_sync)
        .build(length, block_size)
}

#[test]
fn builder_defaults_to_auto_sync_on_a_portable_platform() {
    let builder = Builder::new(PathBuf::from("a/b.db"));
    assert_eq!(builder.filename(), &PathBuf::from("a/b.db"));
    let disk = builder.build(10, 4096);
    assert_eq!(disk.len(), Ok(10));
    // Auto-sync: a truncation is followed by a flush.
    assert_eq!(disk.truncate(3).unwrap().ops, vec![FileOp::SetLen { length: 3 }, FileOp::SyncAll]);
    // Portable: a trim overwrites, whatever block size was probed.
    assert_eq!(
        disk.del(2, 3).unwrap().ops,
        vec![FileOp::ZeroFill { offset: 2, length: 3 }, FileOp::SyncAll]
    );
}

#[test]
fn open_is_the_default_builder() {
    let disk = RandomAccessDisk::open(PathBuf::from("open.db"), 7, 4096);
    assert_eq!(disk.len(), Ok(7));
    assert_eq!(disk.is_empty(), Ok(false));
    assert_eq!(
        disk.write(7, b"x").unwrap().ops,
        vec![FileOp::Write { offset: 7, length: 1 }, FileOp::SyncAll]
    );
}

#[test]
fn setup_opens_without_refusing_an_existing_file() {
    let builder = RandomAccessDisk::builder(PathBuf::from("setup.db"));
    assert_eq!(
        builder.setup(),
        vec![
            SetupStep::CreateParentDirs,
            SetupStep::OpenFile { create_new: false },
            SetupStep::SyncAll,
            SetupStep::Probe,
        ]
    );
    let builder = builder.platform(Platform::Windows);
    assert_eq!(
        builder.setup(),
        vec![
            SetupStep::CreateParentDirs,
            SetupStep::OpenFile { create_new: false },
            SetupStep::SyncAll,
            SetupStep::SetSparse,
            SetupStep::Probe,
        ]
    );
}

#[test]
fn build_keeps_the_block_size_on_unix_only() {
    // Seen through a block-aligned trim: with a block size of 0 it overwrites.
    let mac = disk(Platform::MacOs, false, 100_000, 4096);
    assert_eq!(
        mac.del(4096, 8192).unwrap().ops,
        vec![FileOp::PunchHole { offset: 4096, length: 8192 }]
    );
    let unknown = disk(Platform::MacOs, false, 100_000, 0);
    assert_eq!(
        unknown.del(4096, 8192).unwrap().ops,
        vec![FileOp::ZeroFill { offset: 4096, length: 8192 }]
    );
}

#[test]
fn write_plans_the_bytes_and_the_new_length() {
    let plain = disk(Platform::Portable, false, 10, 0);
    let plan = plain.write(4, b"abc").unwrap();
    assert_eq!(plan.ops, vec![FileOp::Write { offset: 4, length: 3 }]);
    assert_eq!(plan.length, 10);
    let plan = plain.write(8, b"abc").unwrap();
    assert_eq!(plan.length, 11);
    let plan = plain.write(20, b"abc").unwrap();
    assert_eq!(plan.length, 23);

    let synced = disk(Platform::Portable, true, 10, 0);
    let plan = synced.write(4, b"abc").unwrap();
    assert_eq!(plan.ops, vec![FileOp::Write { offset: 4, length: 3 }, FileOp::SyncAll]);
}

#[test]
fn write_of_no_bytes_never_grows_the_storage() {
    let mut file = Storage::open("empty-write.db");
    file.write(27, b"").unwrap();
    assert_eq!(file.len(), 0);
    assert_eq!(
        file.read(13, 5).unwrap_err(),
        DiskError::OutOfBounds { offset: 13, end: Some(18), length: 0 }
    );
    file.write(0, b"hello").unwrap();
    file.write(3, b"").unwrap();
    file.write(5, b"").unwrap();
    file.write(9, b"").unwrap();
    assert_eq!(file.len(), 5);
    assert_eq!(file.contents(), "hello");
}

#[test]
fn write_beyond_the_largest_length_is_refused() {
    let handle = disk(Platform::Portable, true, 10, 0);
    assert_eq!(
        handle.write(u64::MAX, b"a").unwrap_err(),
        DiskError::OutOfBounds { offset: u64::MAX, end: Some(u64::MAX), length: 10 }
    );
    assert_eq!(handle.write(u64::MAX - 1, b"a").unwrap().length, u64::MAX);
    assert!(handle.write(u64::MAX, b"").is_ok());
}

#[test]
fn read_is_refused_exactly_beyond_the_length() {
    let handle = disk(Platform::Portable, true, 10, 0);
    assert_eq!(handle.read(0, 10).unwrap().ops, vec![FileOp::Read { offset: 0, length: 10 }]);
    assert_eq!(handle.read(0, 10).unwrap().length, 10);
    assert!(handle.read(10, 0).is_ok());
    assert!(handle.read(3, 7).is_ok());
    assert_eq!(
        handle.read(3, 8).unwrap_err(),
        DiskError::OutOfBounds { offset: 3, end: Some(11), length: 10 }
    );
    assert_eq!(
        handle.read(11, 0).unwrap_err(),
        DiskError::OutOfBounds { offset: 11, end: Some(11), length: 10 }
    );
    assert_eq!(
        handle.read(u64::MAX, 2).unwrap_err(),
        DiskError::OutOfBounds { offset: u64::MAX, end: Some(u64::MAX), length: 10 }
    );
}

#[test]
fn complete_read_accepts_only_the_full_range() {
    assert_eq!(RandomAccessDisk::complete_read(4, 3, vec![1, 2, 3]), Ok(vec![1, 2, 3]));
    assert_eq!(RandomAccessDisk::complete_read(4, 0, vec![]), Ok(vec![]));
    let short = DiskError::IoFailure {
        context: FileOp::Read { offset: 4, length: 3 },
        return_code: None,
    };
    assert_eq!(RandomAccessDisk::complete_read(4, 3, vec![1, 2]), Err(short));
    assert_eq!(RandomAccessDisk::complete_read(4, 3, vec![1, 2, 3, 4]), Err(short));
}

#[test]
fn del_is_refused_only_beyond_the_end() {
    let handle = disk(Platform::Linux, false, 10, 4096);
    assert_eq!(
        handle.del(11, 1).unwrap_err(),
        DiskError::OutOfBounds { offset: 11, end: None, length: 10 }
    );
    assert_eq!(
        handle.del(11, 0).unwrap_err(),
        DiskError::OutOfBounds { offset: 11, end: None, length: 10 }
    );
    // A start at the very end is in bounds.
    assert_eq!(handle.del(10, 0).unwrap().ops, vec![]);
    assert_eq!(handle.del(10, 5).unwrap().ops, vec![FileOp::SetLen { length: 10 }]);
    assert_eq!(handle.del(10, 5).unwrap().length, 10);
}

#[test]
fn del_of_nothing_plans_nothing() {
    let handle = disk(Platform::Linux, true, 10, 4096);
    let plan = handle.del(4, 0).unwrap();
    assert_eq!(plan.ops, vec![]);
    assert_eq!(plan.length, 10);
}

#[test]
fn del_to_the_end_is_a_truncation() {
    let handle = disk(Platform::MacOs, true, 10, 4);
    for (offset, length) in [(4, 6), (4, 7), (0, 10), (9, 1), (4, u64::MAX), (10, 1)] {
        let deleting = handle.del(offset, length).unwrap();
        let truncating = handle.truncate(offset).unwrap();
        assert_eq!(deleting.ops, truncating.ops);
        assert_eq!(deleting.ops, vec![FileOp::SetLen { length: offset }, FileOp::SyncAll]);
        assert_eq!(deleting.length, offset);
    }
    // One byte short of the end it is a trim.
    assert_eq!(
        handle.del(4, 5).unwrap().ops,
        vec![FileOp::PunchHole { offset: 4, length: 4 }, FileOp::ZeroFill { offset: 8, length: 1 }, FileOp::SyncAll]
    );
    assert_eq!(handle.del(4, 5).unwrap().length, 10);
}

#[test]
fn sync_all_flushes_only_where_auto_sync_is_off() {
    assert_eq!(disk(Platform::Portable, true, 10, 0).sync_all().unwrap().ops, vec![]);
    assert_eq!(
        disk(Platform::Portable, false, 10, 0).sync_all().unwrap().ops,
        vec![FileOp::SyncAll]
    );
    assert_eq!(disk(Platform::Portable, false, 10, 0).sync_all().unwrap().length, 10);
}

#[test]
fn close_always_flushes() {
    for auto_sync in [true, false] {
        let plan = disk(Platform::Portable, auto_sync, 10, 0).close();
        assert_eq!(plan.ops, vec![FileOp::SyncAll]);
        assert_eq!(plan.length, 10);
    }
}

#[test]
fn a_plan_that_failed_is_not_committed() {
    let builder = RandomAccessDisk::builder(PathBuf::from("full.db"));
    let mut disk = builder.build(0, 0);
    let mut file = MemoryFile::new(8);
    let plan = disk.write(0, b"12345678").unwrap();
    file.carry_out(&plan.ops, b"12345678").unwrap();
    disk.commit(&plan);
    assert_eq!(disk.len(), Ok(8));

    // The disk is full: the write fails, and the handle keeps its length.
    let plan = disk.write(8, b"9").unwrap();
    assert_eq!(plan.length, 9);
    assert_eq!(
        file.carry_out(&plan.ops, b"9").unwrap_err(),
        DiskError::IoFailure { context: FileOp::Write { offset: 8, length: 1 }, return_code: None }
    );
    assert_eq!(disk.len(), Ok(8));
    assert_eq!(file.len(), 8);
}
