# pubsys_ami

Registers a machine image in one region and account, and copies it to every other region and
account that it is meant for. Which steps that takes, in which order, with which arguments and
with which result is decided by a library that Verus verifies. The program around it talks to AWS.

- `src/target.rs` decides where an image is registered and where it is copied to.
- `src/identity.rs` resolves the accounts behind the targets and finds those that need access.
- `src/image.rs` holds the published images by region and account.
- `src/stage.rs` and `src/publish.rs` are the publication: it asks for one thing at a time
  (`Publication::action`) and goes on with the answer (`Publication::step`). `src/model.rs` states
  the rules that it follows.
- `src/laws.rs`, `src/course.rs`, `src/failure.rs`, `src/record.rs`, `src/origin.rs` and
  `src/again.rs` state what holds of every plan, of every course of a publication, of its failures,
  of the images that it leaves and where they come from, and of a second run.
- `src/files.rs`, `src/output.rs` and `src/error.rs` handle the inputs that are read from files,
  what becomes of the result, and the messages.
- `src/assoc.rs` is the map that the other modules use.
- `app/` holds the command line, the requests to AWS and the JSON form of the images. It needs
  `aws-sdk-ec2` for the copy requests in `app/ec2.rs`.
